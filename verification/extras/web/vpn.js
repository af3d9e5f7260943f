(function () {
    var state = window.__vpn || { paired: [], gateway: {}, uplink: {} };
    var peers = state.peers || [];
    var renderedKeys = null;
    // True while a share change is in flight, so a status frame cannot yank
    // the control out from under the request that is still being answered.
    var shareBusy = false;
    var shareError = false;
    var HISTORY = 60;
    var rx = [], tx = [], peakRx = 0, peakTx = 0;
    var lastBytes = null, lastTs = 0;

    function el(id) { return document.getElementById(id); }
    function setText(id, text) { var e = el(id); if (e) { e.textContent = text; } }
    function esc(v) {
        return String(v == null ? '' : v)
            .replace(/&/g, '&amp;').replace(/</g, '&lt;').replace(/>/g, '&gt;')
            .replace(/"/g, '&quot;').replace(/'/g, '&#39;');
    }
    function fmtRate(bps) {
        if (bps >= 1048576) { return (bps / 1048576).toFixed(1) + ' MB/s'; }
        if (bps >= 1024) { return (bps / 1024).toFixed(1) + ' KB/s'; }
        return Math.round(bps) + ' B/s';
    }
    function fmtBytes(n) {
        n = Number(n) || 0;
        if (n >= 1073741824) { return (n / 1073741824).toFixed(2) + ' GB'; }
        if (n >= 1048576) { return (n / 1048576).toFixed(1) + ' MB'; }
        if (n >= 1024) { return (n / 1024).toFixed(1) + ' KB'; }
        return n + ' B';
    }

    // ── Traffic chart ──────────────────────────────────────────────────────
    // Same shape as the dashboard's radio charts: in above the line, out
    // below, so direction reads without a legend.
    function draw(inRate, outRate) {
        var svg = el('vpn-chart');
        if (!svg) { return; }
        var W = 600, H = 160, mid = H / 2, pad = 6;
        var max = 1;
        for (var i = 0; i < rx.length; i++) { max = Math.max(max, rx[i], tx[i]); }
        var step = Math.pow(2, Math.ceil(Math.log(max) / Math.log(2)));
        var scale = (mid - pad) / step;
        function path(series, dir) {
            var n = HISTORY, d = '', x0 = 0;
            var start = n - series.length;
            d += 'M' + ((start / (n - 1)) * W).toFixed(1) + ',' + mid;
            for (var i = 0; i < series.length; i++) {
                var x = ((start + i) / (n - 1)) * W;
                d += 'L' + x.toFixed(1) + ',' + (mid - dir * series[i] * scale).toFixed(1);
                x0 = x;
            }
            return d + 'L' + x0.toFixed(1) + ',' + mid + 'Z';
        }
        var grid = '';
        for (var g = 1; g <= 3; g++) {
            var gy = (mid - pad) * g / 4;
            grid += '<line class="tg-grid" x1="0" x2="' + W + '" y1="' + (mid - gy).toFixed(1) + '" y2="' + (mid - gy).toFixed(1) + '"/>';
            grid += '<line class="tg-grid" x1="0" x2="' + W + '" y1="' + (mid + gy).toFixed(1) + '" y2="' + (mid + gy).toFixed(1) + '"/>';
        }
        svg.innerHTML =
            '<defs><linearGradient id="vpn-g-rx" x1="0" y1="0" x2="0" y2="1">' +
            '<stop offset="0%" stop-color="rgba(52,208,88,.85)"/><stop offset="100%" stop-color="rgba(52,208,88,.08)"/></linearGradient>' +
            '<linearGradient id="vpn-g-tx" x1="0" y1="0" x2="0" y2="1">' +
            '<stop offset="0%" stop-color="rgba(13,203,240,.08)"/><stop offset="100%" stop-color="rgba(13,203,240,.85)"/></linearGradient></defs>' +
            grid +
            '<path class="tg-area tg-rx" fill="url(#vpn-g-rx)" d="' + path(rx, 1) + '"/>' +
            '<path class="tg-area tg-tx" fill="url(#vpn-g-tx)" d="' + path(tx, -1) + '"/>' +
            '<line class="tg-mid" x1="0" x2="' + W + '" y1="' + mid + '" y2="' + mid + '"/>';
        // The viewBox is stretched to the card width, so anything drawn inside
        // it is stretched too. Areas survive that; letterforms do not, so the
        // scale is reported in HTML beside the title instead.
        setText('vpn-chart-scale', '\u00b1' + fmtRate(step) + ' full scale');
        setText('vpn-rx-rate', fmtRate(inRate));
        setText('vpn-tx-rate', fmtRate(outRate));
        setText('vpn-rx-peak', 'peak ' + fmtRate(peakRx));
        setText('vpn-tx-peak', 'peak ' + fmtRate(peakTx));
    }

    // A short scroll of what is actually crossing the tunnel. Summaries only —
    // no payloads are captured — but enough to answer "is my traffic going
    // over the radio, and what is it" without reaching for tcpdump.
    function renderWire(recent) {
        var list = el('vpn-wire-list');
        var pause = el('vpn-wire-pause');
        if (!list || (pause && pause.checked)) { return; }
        if (!recent || !recent.length) {
            if (!list.querySelector('.vpn-wire-empty')) {
                list.innerHTML = '<div class="vpn-wire-empty">Waiting for traffic…</div>';
            }
            return;
        }
        list.innerHTML = recent.map(function (p) {
            var t = new Date((p.ts || 0) * 1000);
            var stamp = String(t.getHours()).padStart(2, '0') + ':' +
                String(t.getMinutes()).padStart(2, '0') + ':' +
                String(t.getSeconds()).padStart(2, '0') + '.' +
                String(p.ms || 0).padStart(3, '0');
            var out = p.dir === 'tx';
            // The port is what separates one flow from another on the same
            // pair of hosts, so it belongs with the address, not in a column
            // of its own that would be empty for ICMP.
            function endpoint(addr, port) {
                return esc(addr) + (port == null ? '' : '<span class="vpn-wire-port">:' + port + '</span>');
            }
            return '<div class="vpn-wire-row ' + (out ? 'is-tx' : 'is-rx') + '">' +
                '<span class="vpn-wire-time">' + stamp + '</span>' +
                '<span class="vpn-wire-dir">' + (out ? '\u25b2' : '\u25bc') + '</span>' +
                '<span class="vpn-wire-addr">' + endpoint(p.src, p.sport) + '</span>' +
                '<span class="vpn-wire-arrow">\u2192</span>' +
                '<span class="vpn-wire-addr">' + endpoint(p.dst, p.dport) + '</span>' +
                '<span class="vpn-wire-proto">' + esc(p.proto) + '</span>' +
                '<span class="vpn-wire-len">' + (p.len || 0) + ' B</span>' +
                '</div>';
        }).join('');
    }

    function sampleTraffic(snap) {
        var now = Date.now();
        var inRate = 0, outRate = 0;
        if (lastBytes) {
            var dt = Math.max(0.25, (now - lastTs) / 1000);
            inRate = Math.max(0, snap.rx_bytes - lastBytes.rx) / dt;
            outRate = Math.max(0, snap.tx_bytes - lastBytes.tx) / dt;
        }
        lastBytes = { rx: snap.rx_bytes || 0, tx: snap.tx_bytes || 0 };
        lastTs = now;
        rx.push(inRate); tx.push(outRate);
        if (rx.length > HISTORY) { rx.shift(); tx.shift(); }
        peakRx = Math.max(peakRx, inRate); peakTx = Math.max(peakTx, outRate);
        draw(inRate, outRate);
        setText('vpn-rx-packets', String(snap.rx_packets || 0));
        setText('vpn-tx-packets', String(snap.tx_packets || 0));
        setText('vpn-rx-bytes', fmtBytes(snap.rx_bytes));
        setText('vpn-tx-bytes', fmtBytes(snap.tx_bytes));
        setText('vpn-traffic-total', fmtBytes(snap.rx_bytes) + ' in / ' + fmtBytes(snap.tx_bytes) + ' out');
        setText('vpn-peer-count', String((snap.peers || []).length));
        if (snap.local_tunnel_ip) { setText('vpn-local-ip', snap.local_tunnel_ip); }
    }

    // ── Route through ──────────────────────────────────────────────────────

    // ── Peer table ─────────────────────────────────────────────────────────

    function peerName(peer) {
        return peer.tag || peer.codename || (peer.destination || '').slice(0, 8);
    }

    function ago(ts) {
        if (!ts) { return 'never'; }
        var secs = Math.max(0, Math.floor(Date.now() / 1000) - ts);
        if (secs < 5) { return 'just now'; }
        if (secs < 60) { return secs + ' sec ago'; }
        if (secs < 3600) { return Math.floor(secs / 60) + ' min ago'; }
        if (secs < 86400) { return Math.floor(secs / 3600) + ' hr ago'; }
        return Math.floor(secs / 86400) + ' d ago';
    }

    function linkDot(linkState) {
        if (linkState === 'active') { return 'status-dot status-dot--ok'; }
        if (linkState === 'pending') { return 'status-dot status-dot--warn'; }
        return 'status-dot status-dot--idle';
    }

    // Rows are built once and then patched in place. Replacing the tbody on
    // every socket frame reflowed the table under the pointer and threw away
    // whatever a ping had just written into it — which is what made clicking
    // Ping feel like the table jumped away from you.
    function rowKeys() {
        return peers.map(function (p) { return p.destination; }).join('|');
    }

    function buildRows() {
        var body = el('vpn-peers-body');
        if (!body) { return; }
        if (!peers.length) {
            body.innerHTML = '<tr><td colspan="7" class="vpn-peers-empty">' +
                'No peers yet. Only paired nodes join the VPN \u2014 pair one on the Remote page.' +
                '</td></tr>';
            return;
        }
        body.innerHTML = peers.map(function (peer) {
            var key = esc(peer.destination);
            return '<tr data-peer="' + key + '">' +
                '<td><span class="status-dot" data-cell="dot"></span>' +
                    '<span class="vpn-peers-name" data-cell="name"></span>' +
                    '<span class="vpn-peers-sub" data-cell="sub"></span>' +
                '</td>' +
                '<td class="vpn-peers-ip" data-cell="ip"></td>' +
                '<td data-cell="link"></td>' +
                '<td class="vpn-peers-routes" data-cell="offers"></td>' +
                '<td class="vpn-peers-seen" data-cell="seen"></td>' +
                '<td data-cell="route"></td>' +
                '<td class="vpn-peers-ping" data-cell="ping"></td>' +
                '</tr>';
        }).join('');
        renderedKeys = rowKeys();
    }

    function renderPeers() {
        var body = el('vpn-peers-body');
        if (!body) { return; }
        setText('vpn-peers-count', String(peers.length));
        if (rowKeys() !== renderedKeys) { buildRows(); }

        var selected = state.uplink.enabled ? (state.uplink.peer || '') : '';
        var banner = el('vpn-banner-router');
        if (banner) {
            var chosen = peers.find(function (p) { return p.identity_hash === selected; });
            banner.textContent = selected
                ? (chosen ? peerName(chosen) : selected.slice(0, 8))
                : '\u2014';
        }

        peers.forEach(function (peer) {
            var row = body.querySelector('[data-peer="' + peer.destination + '"]');
            if (!row) { return; }
            function cell(name) { return row.querySelector('[data-cell="' + name + '"]'); }
            function put(name, text) {
                var c = cell(name);
                if (c && c.textContent !== text) { c.textContent = text; }
            }

            cell('dot').className = linkDot(peer.link_state);
            put('name', peerName(peer));
            put('sub', peer.codename && peer.tag ? peer.codename : '');
            put('ip', peer.tunnel_ip || '\u2014');
            put('link', peer.link_state || 'unknown');
            put('offers', (peer.announced_routes || []).join(', ') || '\u2014');
            put('seen', ago(peer.last_seen_ts));

            // The route control: only rebuilt when its shape changes, so the
            // switch never re-renders under a finger mid-toggle.
            var id = peer.identity_hash || '';
            var isSelected = !!id && id === selected;
            var canRoute = !!peer.is_gateway;
            var shape = !id ? 'none' : (!canRoute && !isSelected) ? 'blocked' : 'switch';
            var routeCell = cell('route');
            if (routeCell.getAttribute('data-shape') !== shape) {
                routeCell.setAttribute('data-shape', shape);
                if (shape === 'none') {
                    routeCell.innerHTML = '<span class="vpn-peers-muted">not paired here</span>';
                } else if (shape === 'blocked') {
                    routeCell.innerHTML = '<span class="vpn-peers-muted" ' +
                        'title="This node is not sharing a network. Turn on Share with peers there.">' +
                        'not sharing</span>';
                } else {
                    routeCell.innerHTML =
                        '<label class="feature-switch vpn-route-switch">' +
                        '<input type="checkbox" data-router="' + esc(id) + '"/>' +
                        '<span class="feature-switch-track"><span class="feature-switch-thumb"></span></span>' +
                        '</label>';
                }
            }
            var box = routeCell.querySelector('[data-router]');
            if (box && box.checked !== isSelected && document.activeElement !== box) {
                box.checked = isSelected;
            }

            // The ping cell is left alone once built: it holds a result the
            // operator asked for, and no status frame should erase it.
            var pingCell = cell('ping');
            var ip = peer.tunnel_ip || '';
            if (pingCell.getAttribute('data-ip') !== ip) {
                pingCell.setAttribute('data-ip', ip);
                pingCell.innerHTML = ip
                    ? '<button type="button" class="btn-secondary btn-small" data-ping="' + esc(ip) + '">Ping</button>' +
                      '<span class="vpn-ping-result"></span>'
                    : '<span class="vpn-peers-muted">\u2014</span>';
            }
        });

        var detail = el('vpn-uplink-detail');
        if (detail) {
            if (state.uplink.detail) {
                detail.textContent = state.uplink.detail;
            } else if (state.uplink.active) {
                detail.textContent = 'Reaching ' + state.uplink.routes.join(', ') +
                    (state.uplink.default_route ? ' \u2014 all traffic goes over the radio.' : '.');
            } else {
                detail.textContent = '';
            }
        }
    }

    async function selectRouter(hash, on) {
        var body = on ? { enabled: true, peer: hash } : { enabled: false };
        try {
            var resp = await fetch('/api/vpn/uplink', {
                method: 'PUT',
                headers: { 'Content-Type': 'application/json' },
                body: JSON.stringify(body)
            });
            if (!resp.ok) { throw new Error(await resp.text()); }
            await refresh();
        } catch (err) {
            var detail = el('vpn-uplink-detail');
            if (detail) { detail.textContent = String(err.message || err); }
        }
    }

    // ── Share with peers ───────────────────────────────────────────────────

    // The server owns this switch. An optimistic local flag here was the bug:
    // flipping the toggle changed nothing on the device, and the next status
    // frame — one second later — put the checkbox back, so it could never be
    // turned on at all.
    function renderShare() {
        var toggle = el('vpn-gateway-toggle');
        var input = el('vpn-gateway-routes');
        // Never move a control the operator is currently using.
        if (toggle && document.activeElement !== toggle && !shareBusy) {
            toggle.checked = !!state.gateway.enabled;
        }
        if (input && document.activeElement !== input && !shareBusy) {
            input.value = (state.gateway.routes || []).join(', ');
        }
        var badge = el('vpn-gateway-badge');
        if (badge) {
            var on = state.gateway.enabled;
            badge.textContent = on ? (state.gateway.active ? 'Active' : 'Waiting') : 'Off';
            badge.className = 'badge ' + (on ? (state.gateway.active ? 'badge-ok' : 'badge-warn') : '');
        }
        var detail = el('vpn-gateway-detail');
        if (detail && !shareError) {
            if (state.gateway.detail) {
                detail.textContent = state.gateway.detail;
                detail.className = 'vpn-note';
            } else if (state.gateway.active) {
                detail.textContent = 'Forwarding out ' + (state.gateway.egress_interface || 'the default route') + '.';
                detail.className = 'vpn-note is-ok';
            } else {
                detail.textContent = '';
                detail.className = 'vpn-note';
            }
        }
    }

    async function applyShare(enabled, routes) {
        var detail = el('vpn-gateway-detail');
        shareBusy = true;
        shareError = false;
        try {
            var resp = await fetch('/api/vpn/gateway', {
                method: 'PUT',
                headers: { 'Content-Type': 'application/json' },
                body: JSON.stringify({ enabled: enabled, routes: routes })
            });
            if (!resp.ok) {
                var text = await resp.text();
                throw new Error(text || ('HTTP ' + resp.status));
            }
            shareBusy = false;
            await refresh();
        } catch (err) {
            shareBusy = false;
            shareError = true;
            if (detail) {
                detail.textContent = String(err.message || err);
                detail.className = 'vpn-note is-err';
            }
            // Put the switch back to whatever the device actually did.
            await refresh();
        }
    }

    function routesFromInput() {
        var input = el('vpn-gateway-routes');
        if (!input) { return []; }
        return input.value.split(/[\s,]+/).filter(function (v) { return v.length; });
    }

    /// Pings a peer's tunnel address. This is the question "does the VPN
    /// actually carry traffic to that node", which no amount of status text
    /// answers as well as trying it.
    async function runPing(address, button) {
        var out = button.parentElement.querySelector('.vpn-ping-result');
        if (out) { out.textContent = '…'; out.className = 'vpn-ping-result'; }
        if (button) { button.disabled = true; }
        try {
            var resp = await fetch('/api/vpn/ping', {
                method: 'POST',
                headers: { 'Content-Type': 'application/json' },
                body: JSON.stringify({ address: address })
            });
            var body = await resp.json();
            if (out) {
                if (body.ok) {
                    out.textContent = body.latency ? body.latency : 'ok';
                    out.className = 'vpn-ping-result is-ok';
                } else {
                    out.textContent = 'no reply';
                    out.className = 'vpn-ping-result is-err';
                }
            }
        } catch (err) {
            if (out) { out.textContent = 'failed'; out.className = 'vpn-ping-result is-err'; }
        } finally {
            if (button) { button.disabled = false; }
        }
    }

    // ── Refresh ────────────────────────────────────────────────────────────

    async function refresh() {
        try {
            var [gw, up] = await Promise.all([
                fetch('/api/vpn/gateway').then(function (r) { return r.json(); }),
                fetch('/api/vpn/uplink').then(function (r) { return r.json(); })
            ]);
            state.gateway = gw;
            state.uplink = up;
            renderPeers();
            renderShare();
        } catch (err) { /* transient; the next tick tries again */ }
    }

    // The gateway already publishes a VPN snapshot on the status socket, once
    // a second. Polling a second endpoint for the same numbers would only add
    // load to a single-core board.
    function connect() {
        var proto = location.protocol === 'https:' ? 'wss:' : 'ws:';
        var ws = new WebSocket(proto + '//' + location.host + '/api/ws/status');
        ws.onmessage = function (event) {
            try {
                var msg = JSON.parse(event.data) || {};
                if (msg.type !== 'vpn') { return; }
                var vpn = msg.data || {};
                sampleTraffic(vpn);
                renderWire(vpn.recent);
                var dot = el('vpn-status-dot');
                var text = el('vpn-status-text');
                if (text && vpn.status) { text.textContent = vpn.status; }
                if (dot && vpn.status) {
                    var kind = vpn.status === 'running' ? 'ok'
                        : vpn.status === 'error' ? 'err'
                        : vpn.status === 'mock' ? 'idle' : 'warn';
                    dot.className = 'status-dot status-dot--' + kind;
                }
                if (vpn.network) { setText('vpn-network', vpn.network); }
                if (vpn.interface_name) { setText('vpn-interface', vpn.interface_name); }
                var bar = el('vpn-error-bar');
                if (bar) {
                    if (vpn.last_error) {
                        bar.style.display = '';
                        bar.className = 'vpn-error-bar';
                        bar.textContent = '\u26a0 ' + vpn.last_error;
                    } else {
                        bar.style.display = 'none';
                    }
                }
                // The peer list and both cards come from the same snapshot, so
                // the router picker follows link state without another request.
                if (Array.isArray(vpn.peers)) { peers = vpn.peers; }
                if (vpn.gateway) { state.gateway = vpn.gateway; renderShare(); }
                if (vpn.uplink) { state.uplink = vpn.uplink; }
                renderPeers();
            } catch (err) { /* a malformed frame is not worth tearing down for */ }
        };
        ws.onclose = function () { setTimeout(connect, 3000); };
        ws.onerror = function () { ws.close(); };
    }


    // ── Wiring ─────────────────────────────────────────────────────────────

    document.addEventListener('change', function (event) {
        var box = event.target.closest('[data-router]');
        if (box) { selectRouter(box.getAttribute('data-router'), box.checked); }
    });

    document.addEventListener('click', function (event) {
        var ping = event.target.closest('[data-ping]');
        if (ping) { runPing(ping.getAttribute('data-ping'), ping); return; }
        var preset = event.target.closest('[data-vpn-preset]');
        if (preset) {
            var input = el('vpn-gateway-routes');
            if (input) {
                input.value = preset.getAttribute('data-vpn-preset') === 'internet'
                    ? '0.0.0.0/0'
                    : (window.__vpnLan || '192.168.0.0/24');
            }
            return;
        }
        if (event.target.closest('#vpn-gateway-apply')) {
            var routes = routesFromInput();
            if (!routes.length) {
                var d = el('vpn-gateway-detail');
                if (d) {
                    d.textContent = 'List at least one network, or 0.0.0.0/0 to share the whole connection.';
                    d.className = 'vpn-note is-err';
                }
                shareError = true;
                return;
            }
            applyShare(true, routes);
        }
    });

    var toggle = el('vpn-gateway-toggle');
    if (toggle) {
        toggle.addEventListener('change', function () {
            if (!toggle.checked) {
                applyShare(false, []);
                return;
            }
            var routes = routesFromInput();
            if (!routes.length) {
                // Nothing to share yet: say so rather than sending a request
                // the device will refuse, and leave the switch off.
                toggle.checked = false;
                var detail = el('vpn-gateway-detail');
                if (detail) {
                    detail.textContent = 'List a network to share first — or use one of the buttons below.';
                    detail.className = 'vpn-note is-err';
                }
                shareError = true;
                return;
            }
            applyShare(true, routes);
        });
    }

    // ── VPN feature switch ─────────────────────────────────────────────────
    // Enabling or disabling the VPN is a service-level change, like the shell
    // switch: it is saved immediately and takes effect on the next start, so
    // the label says which of those two states you are looking at.
    (function () {
        var box = el('feature-vpn');
        if (!box) { return; }
        var label = el('feature-vpn-label');
        var current = {};

        function paint(features) {
            current = features || {};
            if (document.activeElement !== box) {
                box.checked = current.vpn_enabled !== false;
            }
            if (label) {
                label.textContent = current.vpn_enabled
                    ? (current.restart_required ? 'Restart to apply' : 'Running')
                    : (current.restart_required ? 'Restart to stop' : 'Disabled');
            }
            var banner = el('vpn-banner');
            if (banner) {
                banner.classList.toggle('remote-banner--restart', !!current.restart_required);
            }
        }

        function refresh() {
            fetch('/api/system/features')
                .then(function (r) { return r.json(); })
                .then(paint)
                .catch(function () { /* transient */ });
        }

        box.addEventListener('change', function () {
            fetch('/api/system/features', {
                method: 'PUT',
                headers: { 'Content-Type': 'application/json' },
                body: JSON.stringify({
                    vpn_enabled: box.checked,
                    // The other switches are sent back unchanged; this endpoint
                    // takes the whole set, and omitting one would clear it.
                    remote_enabled: current.remote_enabled !== false,
                    shell_enabled: !!current.shell_enabled,
                    restart_required: false
                })
            })
                .then(function (r) { return r.json(); })
                .then(paint)
                .catch(refresh);
        });

        refresh();
        setInterval(refresh, 10000);
    })();

    renderPeers();
    renderShare();
    connect();
    // Relative times go stale on their own even when nothing arrives.
    setInterval(renderPeers, 5000);
})();
