<div class="system-about-grid">
  <div class="card">
    <div class="card-header">
      <span class="card-title">Device</span>
    </div>
    <div class="info-row">
      <span class="info-label">Serial</span>
      <code class="info-value">{{serial}}</code>
    </div>
    <div class="info-row">
      <span class="info-label">Hostname</span>
      <span class="info-value">{{hostname}}</span>
    </div>
    <div class="info-row">
      <span class="info-label">OS</span>
      <span class="info-value">{{os_details}}</span>
    </div>
    <div class="info-row">
      <span class="info-label">Arch</span>
      <span class="info-value">{{architecture}}</span>
    </div>
  </div>
  <div class="card">
    <div class="card-header">
      <span class="card-title">Specs</span>
    </div>
    <div class="info-row">
      <span class="info-label">CPU</span>
      <span class="info-value">{{cpu_model}}</span>
    </div>
    <div class="info-row">
      <span class="info-label">Cores</span>
      <span class="info-value">{{cpu_cores}}</span>
    </div>
    <div class="info-row">
      <span class="info-label">Memory</span>
      <span class="info-value">{{memory}}</span>
    </div>
    <div class="info-row">
      <span class="info-label">Storage</span>
      <span class="info-value">{{storage}}</span>
    </div>
  </div>
</div>
