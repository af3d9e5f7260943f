<div class="traffic-grid traffic-grid--three">
  {{radio_a}}
  {{radio_b}}
  {{system}}
</div>
<div class="apps-section">
  <h2 class="section-title">Apps</h2>
  <div class="apps-grid" id="dashboard-apps"></div>
</div>
<div class="dash-grid">
  {{vpn}}
  <div class="card remote-map-card">
  <div class="card-header">
    <span class="card-title">Remote nodes</span>
    <a class="dash-card-link" href="/remote">Open</a>
  </div>
  <svg id="dash-remote-map" class="remote-map remote-map--compact" viewBox="0 0 640 520" preserveAspectRatio="xMidYMid meet"></svg>
  <div class="card-body-text" id="dash-remote-summary">Loading…</div>
</div>
</div>
<div class="dash-grid">
  {{services}}
  {{ports}}
</div>
<div class="modal-backdrop" id="service-restart-modal" hidden>
  <div class="modal-card">
    <div class="modal-header">
      <h2 class="modal-title">Confirm service restart</h2>
      <button type="button" class="modal-close" data-close-service-restart>×</button>
    </div>
    <div class="modal-form">
      <p class="card-body-text">
        Are you sure you want to restart
        <strong id="service-restart-unit">service</strong>
        ?
      </p>
      <div id="service-restart-status"></div>
      <div class="modal-actions">
        <button type="button" class="btn-secondary" data-close-service-restart>
          Cancel
        </button>
        <button type="button" id="service-restart-confirm" class="btn-primary">
          Restart
        </button>
      </div>
    </div>
  </div>
</div>
