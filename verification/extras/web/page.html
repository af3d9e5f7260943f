<!DOCTYPE html>
<html lang="en">
<head>
  <meta charset="utf-8"/>
  <meta name="viewport" content="width=device-width, initial-scale=1"/>
  <title>Kaonic Gateway</title>
  <link rel="stylesheet" href="/style.css"/>
</head>
<body>
  <header class="topbar">
    <div class="topbar-brand">
      <img src="/kaonic-logo.svg" alt="Kaonic" class="topbar-logo-img"/>
    </div>
    <nav class="topbar-nav">
      <a href="/" class="nav-link">Dashboard</a>
      <a href="/settings" class="nav-link">Radio</a>
      <a href="/network" class="nav-link">Network</a>
      <a href="/vpn" class="nav-link">VPN</a>
      <a href="/remote" class="nav-link">Remote</a>
      <a href="/media" class="nav-link">Media</a>
      <a href="/plugins" class="nav-link">Plugins</a>
      <a href="/system" class="nav-link">System</a>
    </nav>
    <div class="topbar-serial">
      <span class="serial-label">SN</span>
      <code class="serial-value">{{serial}}</code>
    </div>
  </header>
  <main class="main-content">{{body}}</main>
  <script>{{script}}</script>
</body>
</html>
