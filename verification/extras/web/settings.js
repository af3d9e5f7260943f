function updateMod() {
  var t = document.getElementById('modulation_type').value;
  document.querySelectorAll('.mod-section').forEach(function(el) {
    el.classList.toggle('active', el.dataset.mod === t);
  });
}
function syncSlider(sliderId, numberId) {
  var s = document.getElementById(sliderId);
  var n = document.getElementById(numberId);
  s.addEventListener('input', function() { n.value = s.value; });
  n.addEventListener('input', function() { s.value = n.value; });
}
document.addEventListener('DOMContentLoaded', function() {
  updateMod();
  syncSlider('ofdm_tx_power_range', 'ofdm_tx_power');
  syncSlider('qpsk_tx_power_range', 'qpsk_tx_power');
});
