<div class="card vpn-device-card">
  <div class="card-header">
    <span class="card-title">This Device</span>
    <span class="{{backend_badge}}" id="vpn-backend">{{backend}}</span>
  </div>
  <div class="vpn-section">
    <div class="vpn-section-title">Identity</div>
    <dl class="vpn-facts">
      <dt>Codename</dt><dd>{{codename}}</dd>
      <dt>Node hash</dt>
      <dd><code class="vpn-facts-mono">{{local_hash}}</code></dd>
    </dl>
  </div>
  <div class="vpn-section">
    <div class="vpn-section-title">Tunnel</div>
    <dl class="vpn-facts">
      <dt>Address</dt>
      <dd><code class="vpn-facts-mono vpn-facts-accent">{{tunnel_ip}}</code></dd>
      <dt>Network</dt><dd><code class="vpn-facts-mono">{{network}}</code></dd>
      <dt>Interface</dt><dd><code class="vpn-facts-mono">{{interface}}</code></dd>
    </dl>
  </div>
  <div class="vpn-section">
    <div class="vpn-section-title">Local networks</div>
    <dl class="vpn-facts">
      <dt>Wi-Fi</dt><dd><code class="vpn-facts-mono">{{wlan0}}</code></dd>
      <dt>USB</dt><dd><code class="vpn-facts-mono">{{usb0}}</code></dd>
    </dl>
  </div>
  <div class="vpn-section">
    <div class="vpn-section-title vpn-section-title--action">
      <span>Offered to peers</span>
      <button type="button" class="btn-secondary btn-small" data-open-vpn-routes>
        Advertise routes
      </button>
    </div>
    <div class="vpn-route-list" id="vpn-local-routes-list">
      {{routes}}
    </div>
  </div>
  <div class="vpn-section vpn-section--last">
    <div class="vpn-section-title vpn-section-title--action">
      <span>Share with peers</span>
      <span class="badge" id="vpn-gateway-badge">Off</span>
    </div>
    <p class="card-body-text">
      Forward paired nodes' traffic onto a local network, or this device's whole internet connection.
    </p>
    <div class="vpn-share-controls">
      <label class="feature-switch">
        <input type="checkbox" id="vpn-gateway-toggle"/>
        <span class="feature-switch-track"><span class="feature-switch-thumb"></span></span>
        <span class="feature-switch-label">Act as a router</span>
      </label>
    </div>
    <div class="vpn-share-body">
      <label class="vpn-field-label" for="vpn-gateway-routes">Networks to share</label>
      <input
        type="text"
        id="vpn-gateway-routes"
        class="form-input"
        placeholder="192.168.5.0/24, or 0.0.0.0/0 for the whole connection"
      />
      <div class="vpn-share-presets">
        <button type="button" class="btn-secondary btn-small" data-vpn-preset="lan">Local LAN</button>
        <button type="button" class="btn-secondary btn-small" data-vpn-preset="internet">Whole connection</button>
      </div>
      <button type="button" class="btn-primary btn-small" id="vpn-gateway-apply">
        Apply
      </button>
    </div>
    <p class="vpn-note" id="vpn-gateway-detail"></p>
  </div>
</div>
