<div class="{{banner_class}}" id="vpn-banner">
  <div class="vpn-banner-lead">
    <span class="{{dot_class}}" id="vpn-status-dot"></span>
    <span class="vpn-banner-status-text" id="vpn-status-text">{{status}}</span>
  </div>
  <div class="vpn-banner-divider"></div>
  <div class="vpn-banner-field">
    <span class="vpn-banner-label">Tunnel IP</span>
    <span class="vpn-banner-ip" id="vpn-local-ip">{{tunnel_ip}}</span>
  </div>
  <div class="vpn-banner-field">
    <span class="vpn-banner-label">Network</span>
    <span class="vpn-banner-ip vpn-banner-net" id="vpn-network">{{network}}</span>
  </div>
  <div class="vpn-banner-field">
    <span class="vpn-banner-label">Peers</span>
    <span class="vpn-banner-ip" id="vpn-peer-count">{{peers}}</span>
  </div>
  <div class="vpn-banner-field">
    <span class="vpn-banner-label">Router</span>
    <span class="vpn-banner-ip" id="vpn-banner-router">—</span>
  </div>
  <div class="vpn-banner-spacer"></div>
  <div class="vpn-banner-field feature-switches">
    <span class="vpn-banner-label">VPN</span>
    <div class="feature-switch-row">
      <label class="feature-switch">
        <input type="checkbox" id="feature-vpn"/>
        <span class="feature-switch-track"><span class="feature-switch-thumb"></span></span>
        <span class="feature-switch-label" id="feature-vpn-label">Running</span>
      </label>
    </div>
  </div>
</div>
{{error_bar}}
<div class="vpn-stack">
  <div class="vpn-top-row">
    {{traffic}}
    {{device}}
  </div>
  <div class="card">
  <div class="card-header">
    <span class="card-title">Peers</span>
    <span class="card-body-text">
      <span id="vpn-peers-count">{{peers}}</span>{{peers_words}}
    </span>
  </div>
  <div class="vpn-peers-wrap">
    <table class="vpn-peers-table">
      <thead>
        <tr>
          <th>Node</th>
          <th>Tunnel IP</th>
          <th>Link</th>
          <th>Offers</th>
          <th>Last seen</th>
          <th>Route through</th>
          <th>Reachable</th>
        </tr>
      </thead>
      <tbody id="vpn-peers-body">
        <tr><td colspan="7" class="vpn-peers-empty">Loading…</td></tr>
      </tbody>
    </table>
  </div>
  <p class="vpn-note" id="vpn-uplink-detail"></p>
</div>
</div>
<div class="modal-backdrop" id="vpn-routes-modal" hidden>
  <div class="modal-card">
    <div class="modal-header">
      <h2 class="modal-title">Advertise local subnets</h2>
      <button type="button" class="modal-close" data-close-vpn-routes>×</button>
    </div>
    <form class="modal-form" id="vpn-routes-form">
      <p class="card-body-text" style="margin-bottom:12px;">
        Enter one CIDR subnet per line — e.g.
        <code style="font-family:var(--font-mono);font-size:12px;">192.168.10.0/24</code>
        . Each subnet stays local on this Kaonic and is shared with peers over the VPN link as a VPN alias to avoid conflicts.
      </p>
      <textarea
        id="vpn-routes-editor-input"
        class="field-input radio-test-textarea"
        placeholder="192.168.10.0/24"
        style="min-height:120px;"
      >{{advertised}}</textarea>
      <div id="vpn-route-editor-status" style="min-height:18px;font-size:13px;margin-top:6px;"></div>
      <div class="modal-actions">
        <button type="button" class="btn-secondary" data-close-vpn-routes>Cancel</button>
        <button type="submit" id="vpn-routes-save" class="btn-primary">Save</button>
      </div>
    </form>
  </div>
</div>
<script>window.__vpn = {{data}};</script>
