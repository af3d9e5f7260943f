<div class="card">
  <div class="card-header">
    <span class="card-title">Services</span>
    <span class="badge" id="services-count">{{count}}</span>
  </div>
  {{rows}}
</div>
