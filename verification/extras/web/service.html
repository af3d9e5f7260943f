<div class="service-row">
  <div class="service-info">
    <span class="service-name">{{unit}}</span>
    <span class="service-brief-name">{{brief_name}}</span>
    <span class="service-status-text" id="service-status-{{index}}">{{status}}</span>
  </div>
  <div class="service-actions">
    <span id="service-badge-{{index}}" class="badge {{badge_class}}">{{badge}}</span>
    <button type="button" class="btn-secondary service-restart-btn" data-service-restart="{{unit}}" title="Restart service" aria-label="Restart {{unit}}">↻</button>
  </div>
</div>
