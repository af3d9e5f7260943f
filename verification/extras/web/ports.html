<div class="card">
  <div class="card-header">
    <span class="card-title">Network Ports</span>
    <span class="badge" id="network-ports-count">{{count}} tracked</span>
  </div>
  <div class="reticulum-table-wrap">
    <table class="frames-table">
      <thead>
        <tr>
          <th>Name</th>
          <th>Proto</th>
          <th>Port</th>
          <th>Details</th>
          <th>State</th>
        </tr>
      </thead>
      <tbody id="network-ports">
        {{rows}}
      </tbody>
    </table>
  </div>
</div>
