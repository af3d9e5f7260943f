*{box-sizing:border-box;margin:0;padding:0}
body{font-family:system-ui,sans-serif;background:#0f1117;color:#e2e8f0;min-height:100vh}
a{color:#7c85f5;text-decoration:none}a:hover{text-decoration:underline}
header{background:#1a1d27;border-bottom:1px solid #2d3147;padding:.85rem 2rem;display:flex;align-items:center;gap:2rem}
header h1{font-size:1.1rem;font-weight:700;color:#7c85f5;letter-spacing:.02em}
header nav a{color:#94a3b8;font-size:.88rem;margin-right:1.2rem}
header nav a.active,header nav a:hover{color:#e2e8f0}
main{max-width:960px;margin:2rem auto;padding:0 1.25rem}
h2{font-size:1.25rem;font-weight:700;margin-bottom:1.5rem}
.card{background:#1a1d27;border:1px solid #2d3147;border-radius:8px;padding:1.5rem;margin-bottom:1.5rem}
.card-title{font-size:.78rem;font-weight:700;color:#7c85f5;text-transform:uppercase;letter-spacing:.08em;margin-bottom:1.1rem}
.toolbar{display:flex;align-items:center;justify-content:space-between;margin-bottom:1rem}
.toolbar-right{display:flex;align-items:center;gap:.75rem}
.badge{display:inline-block;background:#7c85f520;color:#7c85f5;border:1px solid #7c85f540;border-radius:4px;padding:.15rem .55rem;font-size:.75rem;font-weight:600}
.badge-live{background:#14532d40;color:#86efac;border-color:#16a34a50}
table{width:100%;border-collapse:collapse;font-size:.85rem}
thead th{color:#64748b;font-weight:600;font-size:.75rem;text-transform:uppercase;letter-spacing:.05em;padding:.5rem .75rem;border-bottom:1px solid #2d3147;text-align:left}
tbody tr{border-bottom:1px solid #1e2235}
tbody tr:last-child{border-bottom:none}
tbody tr:hover{background:#ffffff05}
td{padding:.5rem .75rem;vertical-align:middle}
td.mono{font-family:monospace;color:#94a3b8;font-size:.8rem}
td.size{color:#e2e8f0;font-variant-numeric:tabular-nums}
td.ts{color:#64748b;font-variant-numeric:tabular-nums}
td.module{color:#7c85f5;font-weight:600}
.empty{text-align:center;color:#4b5563;padding:3rem;font-size:.9rem}
.btn{padding:.35rem .9rem;border-radius:4px;border:none;cursor:pointer;font-size:.82rem;font-weight:600;background:#2d3147;color:#94a3b8}
.btn:hover{background:#3a3f5c;color:#e2e8f0}
