<div class="card audio-card" id="audio-{{id}}">
  <div class="card-header">
    <span class="card-title audio-title">
      <span class="audio-icon">{{icon}}</span>
      {{title}}
    </span>
    <span class="audio-status pending" id="status-{{id}}">
      Loading...
    </span>
  </div>
  <div class="vol-bars-wrap">
    <div class="vol-bars" id="volbars-{{id}}">
      {{bars}}
    </div>
    <span class="vol-display" id="voldsp-{{id}}">
      {{volume_text}}
    </span>
  </div>
  <div class="audio-row">
    <span class="audio-label">Volume</span>
    <input
      type="range"
      id="vol-{{id}}"
      class="audio-slider"
      min="0" max="100" step="1"
      value="{{volume}}"
    />
  </div>
  <div class="audio-row">
    <span class="audio-label">Output</span>
    <button class="mute-btn" id="mute-{{id}}">
      <span class="mute-label">Mute</span>
    </button>
  </div>
</div>
