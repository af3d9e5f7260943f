*{box-sizing:border-box;margin:0;padding:0}
body{font-family:system-ui,sans-serif;background:#0f1117;color:#e2e8f0;min-height:100vh}
a{color:#7c85f5;text-decoration:none}a:hover{text-decoration:underline}
header{background:#1a1d27;border-bottom:1px solid #2d3147;padding:.85rem 2rem;display:flex;align-items:center;gap:2rem}
header h1{font-size:1.1rem;font-weight:700;color:#7c85f5;letter-spacing:.02em}
header nav a{color:#94a3b8;font-size:.88rem;margin-right:1.2rem}
header nav a:hover{color:#e2e8f0}
main{max-width:740px;margin:2rem auto;padding:0 1.25rem}
.card{background:#1a1d27;border:1px solid #2d3147;border-radius:8px;padding:1.5rem;margin-bottom:1.5rem}
.card-title{font-size:.78rem;font-weight:700;color:#7c85f5;text-transform:uppercase;letter-spacing:.08em;margin-bottom:1.1rem}
.field{margin-bottom:1rem}
.field label{display:block;font-size:.83rem;color:#94a3b8;margin-bottom:.3rem;font-weight:500}
.field input,.field textarea,.field select{width:100%;background:#0f1117;border:1px solid #2d3147;border-radius:4px;padding:.45rem .7rem;color:#e2e8f0;font-size:.9rem;font-family:inherit}
.field input:focus,.field textarea:focus,.field select:focus{outline:none;border-color:#7c85f5;box-shadow:0 0 0 2px #7c85f520}
.field textarea{resize:vertical;min-height:90px;line-height:1.5;font-family:monospace}
.field small{display:block;color:#64748b;font-size:.76rem;margin-top:.25rem}
.row{display:grid;grid-template-columns:1fr 1fr;gap:1rem}
.row3{display:grid;grid-template-columns:1fr 1fr 1fr;gap:1rem}
.row4{display:grid;grid-template-columns:1fr 1fr 1fr 1fr;gap:1rem}
.actions{display:flex;justify-content:flex-end;gap:.75rem;margin-top:.5rem}
.btn{padding:.45rem 1.2rem;border-radius:4px;border:none;cursor:pointer;font-size:.9rem;font-weight:600}
.btn-primary{background:#7c85f5;color:#fff}.btn-primary:hover{background:#6470f0}
.flash{border-radius:6px;padding:.7rem 1rem;margin-bottom:1.5rem;font-size:.88rem}
.flash-ok{background:#14532d;border:1px solid #16a34a;color:#86efac}
.flash-err{background:#450a0a;border:1px solid #dc2626;color:#fca5a5}
.hint{font-size:.78rem;color:#64748b;margin-top:-.5rem;margin-bottom:.75rem}
.mod-section{display:none}.mod-section.active{display:block}
.slider-row{display:flex;align-items:center;gap:.75rem}
.slider-row input[type=range]{flex:1;accent-color:#7c85f5;cursor:pointer}
.slider-row input[type=number]{width:72px;flex-shrink:0;text-align:center}
select option{background:#1a1d27}
