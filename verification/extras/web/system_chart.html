<div class="card traffic-card">
  <div class="card-header">
    <span class="card-title">System</span>
    <span class="traffic-rssi" id="sys-chart-freq">
      {{cpu_clock}}
    </span>
  </div>
  <div class="traffic-legend">
    <div class="traffic-legend-item rx">
      <span class="traffic-arrow">▲</span>
      <span class="traffic-legend-label">CPU</span>
      <span class="traffic-rate" id="sys-chart-cpu">{{cpu}}</span>
    </div>
    <div class="traffic-legend-item tx">
      <span class="traffic-arrow">▼</span>
      <span class="traffic-legend-label">RAM</span>
      <span class="traffic-rate" id="sys-chart-ram">{{ram_percent}}%</span>
      <span class="traffic-peak" id="sys-chart-ram-mb">
        {{ram_text}}
      </span>
    </div>
  </div>
  <svg class="traffic-chart" id="sys-chart" viewBox="0 0 600 160" preserveAspectRatio="none"></svg>
  <div class="traffic-counters">
    <div class="traffic-counter">
      <span class="metric-label">Storage</span>
      <span class="metric-value" id="sys-chart-fs">—</span>
      <span class="traffic-sub" id="sys-chart-os">{{os_details}}</span>
    </div>
    <div class="traffic-counter">
      <span class="metric-label">Uptime</span>
      <span class="metric-value" id="sys-chart-uptime">—</span>
      <span class="traffic-sub">since boot</span>
    </div>
  </div>
</div>
