<div class="reticulum-summary">
  <div class="card stat-card">
    <span class="stat-label">Incoming links</span>
    <span class="stat-value" id="reticulum-incoming-count">{{incoming_count}}</span>
  </div>
  <div class="card stat-card">
    <span class="stat-label">Outgoing links</span>
    <span class="stat-value" id="reticulum-outgoing-count">{{outgoing_count}}</span>
  </div>
  <div class="card stat-card">
    <span class="stat-label">Recent events</span>
    <span class="stat-value" id="reticulum-events-count">{{events_count}}</span>
  </div>
  <div class="card stat-card">
    <span class="stat-label">Local hash</span>
    <span class="stat-value td-hex">{{local_hash}}</span>
    <span class="stat-label">{{peers_text}}</span>
  </div>
  <div class="card stat-card">
    <span class="stat-label">VPN status</span>
    <span class="stat-value" id="vpn-status">{{vpn_status}}</span>
    <span class="stat-label" id="vpn-backend">{{vpn_backend}}</span>
    <span class="stat-label" id="vpn-interface">{{vpn_interface}}</span>
  </div>
</div>
<div class="reticulum-grid">
  {{incoming}}
  {{outgoing}}
</div>
<div class="reticulum-grid">
  {{configured}}
  {{peers}}
  {{routes}}
</div>
{{events}}
