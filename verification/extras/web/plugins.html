<div class="page">
  <div class="page-header">
    <div style="display:flex;align-items:center;gap:12px;flex-wrap:wrap;">
      <h1 class="page-title">🧩 Plugins</h1>
      <span class="badge">Prototype</span>
    </div>
    <button type="button" class="btn-primary" data-plugin-install>Install</button>
  </div>
  <div class="card plugins-intro-card">
    <div class="card-header">
      <span class="card-title">Plugin Manager</span>
    </div>
    <p class="card-body-text">
      Create your own plugin as a ZIP package with kaonic-plugin.toml, a systemd service file, the plugin binary, and an optional files/ folder for extra runtime assets. The binary is installed into the plugin current directory, files/ is copied into that same runtime folder, and updates replace the full plugin contents with the new package.
    </p>
  </div>
  <div class="card plugins-shell">
    <div class="plugins-layout">
<aside class="plugins-sidebar">
  <div class="card-header">
    <span class="card-title">Installed Plugins</span>
    <span class="badge" id="plugins-count">0</span>
  </div>
  <div class="plugins-list" id="plugins-list"><div class="plugins-empty">Loading plugins…</div></div>
</aside>
<section class="plugins-detail" id="plugins-detail">
  <div class="plugins-empty plugins-empty--detail">
    Select a plugin from the left list or install a new ZIP package.
  </div>
</section>
    </div>
    <div class="plugins-shell-footer">
      <span class="plugins-shell-footer-label">Installer version</span>
      <span id="plugins-installer-version" class="badge">Loading…</span>
    </div>
  </div>
  <input id="plugin-package-input" class="plugins-file-input" type="file" accept=".zip,application/zip" />
  <div class="modal-backdrop" id="plugins-upload-modal" hidden>
    <div class="modal-card plugins-upload-modal" role="dialog" aria-modal="true" aria-labelledby="plugins-upload-title">
      <div class="modal-header">
        <div>
          <div class="modal-title" id="plugins-upload-title">Install plugin package</div>
        </div>
        <button type="button" class="modal-close" data-plugin-modal-close aria-label="Close">×</button>
      </div>
      <div class="plugins-upload-copy">
        <p class="card-body-text" id="plugins-upload-description">
          Drag and drop a plugin ZIP here or choose one from your device to install it.
        </p>
      </div>
      <button type="button" class="plugins-upload-dropzone" id="plugins-upload-dropzone">
        <span class="plugins-upload-icon">⬆</span>
        <span class="plugins-upload-title">Drag &amp; drop plugin ZIP</span>
        <span class="plugins-upload-hint">or use the file picker below</span>
      </button>
      <div class="plugins-upload-selected" id="plugins-upload-selected">No ZIP package selected yet.</div>
      <div class="plugins-upload-feedback" id="plugins-upload-feedback"></div>
      <div class="modal-actions plugins-upload-actions">
        <button type="button" class="btn-secondary" id="plugins-upload-choose" data-plugin-modal-choose>Choose file</button>
        <button type="button" class="btn-primary" id="plugins-upload-submit" data-plugin-modal-submit>Install plugin</button>
      </div>
    </div>
  </div>
  <div class="modal-backdrop" id="plugins-confirm-modal" hidden>
    <div class="modal-card plugins-confirm-modal" role="dialog" aria-modal="true" aria-labelledby="plugins-confirm-title">
      <div class="modal-header">
        <div class="modal-title" id="plugins-confirm-title">Confirm action</div>
        <button type="button" class="modal-close" data-plugin-confirm-close aria-label="Close">×</button>
      </div>
      <p class="card-body-text plugins-confirm-message" id="plugins-confirm-message">
        Are you sure you want to continue?
      </p>
      <div class="modal-actions">
        <button type="button" class="btn-secondary" data-plugin-confirm-close>Cancel</button>
        <button type="button" class="btn-secondary plugins-confirm-submit" id="plugins-confirm-submit" data-plugin-confirm-submit>Confirm</button>
      </div>
    </div>
  </div>
</div>
