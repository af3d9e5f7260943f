<div class="card traffic-card">
  <div class="card-header">
    <span class="card-title">Tunnel Traffic</span>
    <span class="traffic-rssi" id="vpn-chart-scale">scale 1 B/s</span>
    <span class="traffic-rssi" id="vpn-traffic-total">
      {{rx_bytes}} in / {{tx_bytes}} out
    </span>
  </div>
  <div class="traffic-legend">
    <div class="traffic-legend-item rx">
      <span class="traffic-arrow">▲</span>
      <span class="traffic-legend-label">IN</span>
      <span class="traffic-rate" id="vpn-rx-rate">0 B/s</span>
      <span class="traffic-peak" id="vpn-rx-peak">peak 0 B/s</span>
    </div>
    <div class="traffic-legend-item tx">
      <span class="traffic-arrow">▼</span>
      <span class="traffic-legend-label">OUT</span>
      <span class="traffic-rate" id="vpn-tx-rate">0 B/s</span>
      <span class="traffic-peak" id="vpn-tx-peak">peak 0 B/s</span>
    </div>
  </div>
  <svg class="traffic-chart" id="vpn-chart" viewBox="0 0 600 160" preserveAspectRatio="none"></svg>
  <div class="vpn-wire">
    <div class="vpn-wire-head">
      <span class="vpn-section-title">Live packets</span>
      <label class="feature-switch vpn-wire-pause">
        <input type="checkbox" id="vpn-wire-pause"/>
        <span class="feature-switch-track"><span class="feature-switch-thumb"></span></span>
        <span class="feature-switch-label">Hold</span>
      </label>
    </div>
    <div class="vpn-wire-list" id="vpn-wire-list">
      <div class="vpn-wire-empty">Waiting for traffic…</div>
    </div>
  </div>
  <div class="traffic-counters">
    <div class="traffic-counter">
      <span class="metric-label">Packets in</span>
      <span class="metric-value stat-rx" id="vpn-rx-packets">{{rx_packets}}</span>
      <span class="traffic-sub" id="vpn-rx-bytes">{{rx_bytes}}</span>
    </div>
    <div class="traffic-counter">
      <span class="metric-label">Packets out</span>
      <span class="metric-value stat-tx" id="vpn-tx-packets">{{tx_packets}}</span>
      <span class="traffic-sub" id="vpn-tx-bytes">{{tx_bytes}}</span>
    </div>
  </div>
</div>
