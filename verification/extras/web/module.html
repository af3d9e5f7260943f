<div class="card">
  <div class="card-header">
    <span class="card-title">{{label}}</span>
    <span class="badge badge-ok">{{modulation}}</span>
  </div>
  <div class="info-row">
    <span class="info-label">Frequency</span>
    <span class="info-value">{{frequency}}</span>
  </div>
  <div class="info-row">
    <span class="info-label">Channel</span>
    <span class="info-value">{{channel}}</span>
  </div>
  <div class="info-row">
    <span class="info-label">Spacing</span>
    <span class="info-value">{{spacing}}</span>
  </div>
  <div class="info-row">
    <span class="info-label">Bandwidth</span>
    <span class="info-value">{{bandwidth}}</span>
  </div>
  <div class="info-row">
    <span class="info-label">Acceleration</span>
    <span class="info-value">{{acceleration}}</span>
  </div>
  {{details}}
</div>
