<div class="page">
  <div class="page-header">
    <h1 class="page-title">🖥️ System</h1>
    <button type="button" id="system-reboot-open" class="btn-secondary system-reboot-btn">
      Reboot
    </button>
  </div>
  <h2 class="section-title">About</h2>
  {{about}}
  <h2 class="section-title">Update</h2>
  <div class="update-grid">
    {{commd}}
    {{gateway}}
  </div>
  <div class="modal-backdrop" id="system-reboot-modal" hidden>
    <div class="modal-card">
      <div class="modal-header">
        <h2 class="modal-title">Confirm reboot</h2>
        <button type="button" class="modal-close" data-close-system-reboot>×</button>
      </div>
      <div class="modal-form">
        <p class="card-body-text">
          Are you sure you want to reboot the device now?
        </p>
        <div id="system-reboot-status"></div>
        <div class="modal-actions">
          <button type="button" class="btn-secondary" data-close-system-reboot>
            Cancel
          </button>
          <button type="button" id="system-reboot-confirm" class="btn-primary">
            Reboot
          </button>
        </div>
      </div>
    </div>
  </div>
</div>
