<div class="card">
  <div class="card-header">
    <span class="card-title">{{title}}</span>
    <span class="badge">{{version}}</span>
  </div>
  <div class="info-row">
    <span class="info-label">SHA-256</span>
    <code class="info-value">{{hash}}</code>
  </div>
  <div class="update-upload">
    <div class="upload-row">
      <input type="file" id="{{file_id}}" accept=".zip" class="file-input"/>
      <button class="btn-primary" onclick="{{onclick}}">Apply Update</button>
    </div>
    <div id="{{status_id}}" class="update-status"></div>
  </div>
</div>
