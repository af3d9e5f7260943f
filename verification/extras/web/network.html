<div class="page-header">
  <button type="button" id="network-refresh-btn" class="btn-secondary">Refresh</button>
</div>
<div class="remote-flash" id="network-flash" hidden></div>
<div class="{{banner_class}}" id="net-banner">
  <div class="vpn-banner-lead">
    <span class="{{dot_class}}" id="net-status-dot"></span>
    <span class="vpn-banner-status-text" id="net-status-text">{{status}}</span>
  </div>
  <div class="vpn-banner-divider"></div>
  <div class="vpn-banner-field">
    <span class="vpn-banner-label">Mode</span>
    <span class="vpn-banner-ip" id="net-mode-value">
      {{mode}}
    </span>
  </div>
  <div class="vpn-banner-field">
    <span class="vpn-banner-label">wlan0 IP</span>
    <span class="vpn-banner-ip" id="net-ip-value">
      {{address}}
    </span>
  </div>
  <div class="vpn-banner-field">
    <span class="vpn-banner-label">Antenna</span>
    <span class="vpn-banner-ip" id="net-antenna-value">
      {{antenna}}
    </span>
  </div>
  <div class="vpn-banner-field">
    <span class="vpn-banner-label">Service</span>
    <span class="vpn-banner-ip" id="net-hostapd-value">{{service}}</span>
  </div>
  <div class="vpn-banner-field">
    <span class="vpn-banner-label">Backend</span>
    <span class="vpn-banner-ip">{{backend}}</span>
  </div>
</div>
<div class="network-grid">
  <div class="card network-card">
    <div class="card-header">
      <span class="card-title">Wi-Fi</span>
      <div class="network-mode-toggle network-mode-toggle--inline">
        <button type="button" class="wifi-mode-btn" id="wifi-mode-btn-ap">AP</button>
        <button type="button" class="wifi-mode-btn" id="wifi-mode-btn-sta">Station</button>
      </div>
    </div>
    <div class="network-actions">
      <button type="button" class="btn-secondary" id="wifi-scan-btn">Scan</button>
      <button type="button" class="btn-secondary" id="wifi-add-btn">Add network…</button>
    </div>
    <div id="wifi-list" class="wifi-list">
      <p class="card-body-text">Loading…</p>
    </div>
    <div class="network-detail-block" id="wifi-antenna-section" {{antenna_hidden}}>
      <div class="network-subtitle">Antenna</div>
      <div class="network-mode-toggle">
        <button type="button" class="wifi-mode-btn" id="wifi-antenna-btn-internal">Internal</button>
        <button type="button" class="wifi-mode-btn" id="wifi-antenna-btn-external">External</button>
      </div>
    </div>
  </div>
  <div class="card network-card">
    <div class="card-header"><span class="card-title">Link</span></div>
    <pre class="network-pre" id="net-link-details">{{link_details}}</pre>
    <div class="card-header"><span class="card-title">Interfaces</span></div>
    <pre class="network-pre network-dump" id="net-iface-details">{{interface_details}}</pre>
  </div>
</div>
<div class="card network-card">
  <div class="card-header">
    <span class="card-title">VPN firewall rules</span>
    <span class="badge" id="fw-forwarding">—</span>
  </div>
  <div class="reticulum-table-wrap">
    <table class="frames-table">
      <thead><tr><th>Chain</th><th>Rule</th></tr></thead>
      <tbody id="fw-rules"><tr><td colspan="2" class="frames-empty">Loading…</td></tr></tbody>
    </table>
  </div>
</div>
<div class="card network-card">
  <div class="card-header"><span class="card-title">Routing table</span></div>
  <div class="reticulum-table-wrap">
    <table class="frames-table">
      <thead><tr><th>Destination</th><th>Via</th><th>Device</th><th>Scope</th></tr></thead>
      <tbody id="fw-routes"><tr><td colspan="4" class="frames-empty">Loading…</td></tr></tbody>
    </table>
  </div>
</div>
<div class="modal-backdrop" id="wifi-connect-modal" hidden>
  <div class="modal-card">
    <div class="modal-header">
      <h2 class="modal-title">Wi-Fi network</h2>
      <button type="button" class="modal-close" data-close-connect>×</button>
    </div>
    <form id="wifi-connect-form" class="modal-form">
      <label class="form-label" for="wifi-ssid">SSID</label>
      <input id="wifi-ssid" name="ssid" class="form-input" autocomplete="off" required />
      <label class="form-label" for="wifi-psk">Password</label>
      <input id="wifi-psk" name="psk" type="password" class="form-input" minlength="8" maxlength="63" />
      <label class="remote-toggle">
        <input type="checkbox" id="wifi-save-only"/>
        <span>Save only (do not connect now)</span>
      </label>
      <div class="modal-actions">
        <button type="button" class="btn-secondary" data-close-connect>Cancel</button>
        <button type="submit" class="btn-primary" id="wifi-connect-submit">Connect</button>
      </div>
    </form>
  </div>
</div>
