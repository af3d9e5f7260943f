<div class="card">
  <div class="card-header">
    <span class="card-title">VPN</span>
    <span id="dash-vpn-status" class="{{badge_class}}">{{status}}</span>
  </div>
  <div class="info-row">
    <span class="info-label">Tunnel IP</span>
    <code class="info-value" id="dash-vpn-tunnel">{{tunnel_ip}}</code>
  </div>
  <div class="info-row">
    <span class="info-label">Peers</span>
    <span class="info-value" id="dash-vpn-peers">{{peers}}</span>
  </div>
  <div class="metric-row">
    <span class="metric-label">TX</span>
    <span class="metric-value" id="dash-vpn-tx">{{tx}}</span>
    <span class="metric-label">RX</span>
    <span class="metric-value" id="dash-vpn-rx">{{rx}}</span>
  </div>
  <div class="metric-row">
    <span class="metric-label">TX pkts</span>
    <span class="metric-value" id="dash-vpn-tx-pkts">{{tx_packets}}</span>
    <span class="metric-label">RX pkts</span>
    <span class="metric-value" id="dash-vpn-rx-pkts">{{rx_packets}}</span>
  </div>
  <div class="info-row">
    <span class="info-label">Serial</span>
    <code class="info-value">{{serial}}</code>
  </div>
  <div class="info-row">
    <span class="info-label">Hash</span>
    <code class="info-value hash">{{vpn_hash}}</code>
  </div>
</div>
