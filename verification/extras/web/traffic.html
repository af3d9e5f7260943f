<div class="card traffic-card">
  <div class="card-header">
    <span class="card-title">{{label}}</span>
    <span class="badge badge-ok">{{modulation}}</span>
  </div>
  <div class="traffic-config">
    <span class="traffic-config-freq">{{frequency}}</span>
    <span class="traffic-config-sep">·</span>
    <span>{{channel}}</span>
    <span class="traffic-config-sep">·</span>
    <span>{{settings}}</span>
    <span class="traffic-rssi" id="traffic-rssi-{{index}}">—</span>
  </div>
  <div class="traffic-legend">
    <div class="traffic-legend-item rx">
      <span class="traffic-arrow">▲</span>
      <span class="traffic-legend-label">RX</span>
      <span class="traffic-rate" id="traffic-rx-rate-{{index}}">0 B/s</span>
      <span class="traffic-peak" id="traffic-rx-peak-{{index}}">peak 0 B/s</span>
    </div>
    <div class="traffic-legend-item tx">
      <span class="traffic-arrow">▼</span>
      <span class="traffic-legend-label">TX</span>
      <span class="traffic-rate" id="traffic-tx-rate-{{index}}">0 B/s</span>
      <span class="traffic-peak" id="traffic-tx-peak-{{index}}">peak 0 B/s</span>
    </div>
  </div>
  <svg class="traffic-chart" id="traffic-chart-{{index}}" viewBox="0 0 600 160" preserveAspectRatio="none"></svg>
  <div class="rssi-strip-row">
    <span class="rssi-strip-label">Signal</span>
    <svg class="rssi-strip" id="rssi-strip-{{index}}" viewBox="0 0 600 20" preserveAspectRatio="none"></svg>
    <span class="rssi-strip-value" id="traffic-rssi-strip-{{index}}">no signal</span>
  </div>
  <div class="traffic-counters">
    <div class="traffic-counter">
      <span class="metric-label">RX frames</span>
      <span class="metric-value stat-rx" id="traffic-rx-frames-{{index}}">0</span>
      <span class="traffic-sub" id="traffic-rx-bytes-{{index}}">0 B</span>
    </div>
    <div class="traffic-counter">
      <span class="metric-label">TX frames</span>
      <span class="metric-value stat-tx" id="traffic-tx-frames-{{index}}">0</span>
      <span class="traffic-sub" id="traffic-tx-bytes-{{index}}">0 B</span>
    </div>
  </div>
</div>
