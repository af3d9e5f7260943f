<script type="application/json" id="remote-initial">{{snapshot}}</script>
<div class="remote-flash" id="remote-flash" hidden></div>
<div class="vpn-banner remote-banner" id="remote-banner">
  <div class="vpn-banner-lead">
    <span class="status-dot status-dot--ok" id="remote-status-dot"></span>
    <span class="vpn-banner-status-text" id="remote-status-text">{{codename}}</span>
  </div>
  <div class="vpn-banner-divider"></div>
  <div class="vpn-banner-field">
    <span class="vpn-banner-label">Nodes</span>
    <span class="vpn-banner-ip"><span id="remote-stat-online">{{online}}</span> / <span id="remote-stat-nodes">{{nodes}}</span> online</span>
  </div>
  <div class="vpn-banner-field">
    <span class="vpn-banner-label">Paired</span>
    <span class="vpn-banner-ip" id="remote-stat-paired">{{paired}}</span>
  </div>
  <div class="vpn-banner-field">
    <span class="vpn-banner-label">Pending</span>
    <span class="vpn-banner-ip" id="remote-stat-pending">{{pending}}</span>
  </div>
  <div class="vpn-banner-field vpn-banner-field--hash">
    <span class="vpn-banner-label">Identity</span>
    <code class="vpn-banner-ip td-hash" id="remote-local-hash">{{identity_hash}}</code>
  </div>
  <div class="vpn-banner-field feature-switches">
    <span class="vpn-banner-label">Remote</span>
    <div class="feature-switch-row">
      <label class="feature-switch">
        <input type="checkbox" id="feature-remote"/>
        <span class="feature-switch-track"><span class="feature-switch-thumb"></span></span>
        <span class="feature-switch-label" id="feature-remote-label">Running</span>
      </label>
      <label class="feature-switch">
        <input type="checkbox" id="feature-shell"/>
        <span class="feature-switch-track"><span class="feature-switch-thumb"></span></span>
        <span class="feature-switch-label" id="feature-shell-label">Shell off</span>
      </label>
    </div>
  </div>
</div>
<div class="remote-grid">
  <div class="card remote-map-card">
    <div class="card-header">
      <span class="card-title">Node map</span>
      <span class="card-body-text">hops · signal</span>
    </div>
    <svg id="remote-map" class="remote-map" viewBox="0 0 640 520" preserveAspectRatio="xMidYMid meet"></svg>
    <div class="remote-map-info" id="remote-map-info">
      <span class="remote-map-info-hint">Hover a node</span>
    </div>
    <div class="remote-legend">
      <span><i class="rm-legend-dot online"></i>online</span>
      <span><i class="rm-legend-dot offline"></i>offline</span>
      <span><i class="rm-legend-dot paired"></i>paired</span>
      <span><i class="rm-legend-dot incoming"></i>wants to pair</span>
      <span><i class="rm-legend-dot linked"></i>link active</span>
    </div>
  </div>
  <div class="card remote-detail-card" id="remote-detail-card">
    <div class="card-header"><span class="card-title">Node</span></div>
    <div id="remote-detail"></div>
  </div>
</div>
<div class="remote-grid remote-grid--secondary remote-grid--three">
  <div class="card">
    <div class="card-header">
      <span class="card-title">Pairing requests</span>
      <span class="badge badge-warn" id="remote-incoming-count">{{pending}}</span>
    </div>
    <div id="remote-incoming"></div>
  </div>
  <div class="card">
    <div class="card-header"><span class="card-title">Transfers</span></div>
    <div id="remote-jobs"></div>
  </div>
  <div class="card">
    <div class="card-header"><span class="card-title">Local settings</span></div>
    <div class="form-row remote-settings">
      <div class="form-group">
        <label class="form-label" for="remote-set-announce">Announce interval (s)</label>
        <input class="form-input" id="remote-set-announce" type="number" min="5" max="255" value="{{announce_secs}}"/>
      </div>
      <div class="form-group">
        <label class="form-label" for="remote-set-gap">Transfer pacing (ms/chunk)</label>
        <input class="form-input" id="remote-set-gap" type="number" min="0" max="500" value="12"/>
      </div>
      <div class="form-group">
        <label class="form-label" for="remote-set-parity">Transfer parity (per 16 chunks)</label>
        <input class="form-input" id="remote-set-parity" type="number" min="0" max="8" value="2"/>
      </div>
      <div class="form-group remote-check">
        <label class="form-label" for="remote-set-pairing">Accept pairing requests</label>
        <input id="remote-set-pairing" type="checkbox" {{accepts_pairing}}/>
      </div>
    </div>
    <div class="remote-actions"><button class="btn-apply" id="remote-settings-save">Save</button></div>
    <div class="remote-section">
      <div class="remote-section-title">Link coding (runtime)</div>
      <div class="form-row remote-settings">
        <div class="form-group">
          <label class="form-label" for="remote-fec-default">Default class</label>
          <select class="form-input" id="remote-fec-default"></select>
        </div>
      </div>
    </div>
  </div>
</div>
<div class="card remote-table-card">
  <div class="card-header"><span class="card-title">All nodes</span></div>
  <div class="reticulum-table-wrap">
    <table class="frames-table">
      <thead><tr><th></th><th>Node</th><th>Hops</th><th>Signal</th><th>Trust</th><th>Seen</th><th></th></tr></thead>
      <tbody id="remote-node-rows"></tbody>
    </table>
  </div>
</div>
<div class="card remote-table-card">
  <div class="card-header"><span class="card-title">Activity</span></div>
  <div class="reticulum-table-wrap">
    <table class="frames-table">
      <thead><tr><th>When</th><th>Event</th><th>Node</th><th>Details</th></tr></thead>
      <tbody id="remote-events"></tbody>
    </table>
  </div>
</div>
