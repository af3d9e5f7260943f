var autoRefresh = true;
var refreshInterval = null;

function fmtTime(ts) {
  var d = new Date(ts * 1000);
  return d.toLocaleTimeString([], {hour12: false}) + '.' + String(d.getMilliseconds()).padStart(3,'0');
}

function renderTable(frames) {
  var tbody = document.getElementById('frames-body');
  if (!frames || frames.length === 0) {
    tbody.innerHTML = '<tr><td class="empty" colspan="5">No frames received yet.</td></tr>';
    return;
  }
  tbody.innerHTML = frames.map(function(f) {
    return '<tr>'
      + '<td class="ts">' + fmtTime(f.timestamp) + '</td>'
      + '<td class="module">M' + f.module + '</td>'
      + '<td class="size">' + f.size + ' B</td>'
      + '<td class="mono">' + f.data_hex + '</td>'
      + '</tr>';
  }).join('');
  document.getElementById('frame-count').textContent = frames.length + ' frames';
}

function fetchFrames() {
  fetch('/frames/json')
    .then(function(r) { return r.json(); })
    .then(function(data) { renderTable(data); })
    .catch(function() {});
}

function toggleAuto() {
  autoRefresh = !autoRefresh;
  var btn = document.getElementById('toggle-btn');
  btn.textContent = autoRefresh ? 'Pause' : 'Resume';
  if (autoRefresh) {
    refreshInterval = setInterval(fetchFrames, 2000);
  } else {
    clearInterval(refreshInterval);
  }
}

document.addEventListener('DOMContentLoaded', function() {
  fetchFrames();
  refreshInterval = setInterval(fetchFrames, 2000);
});
