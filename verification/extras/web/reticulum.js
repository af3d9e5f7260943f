(function() {
    var proto = location.protocol === 'https:' ? 'wss:' : 'ws:';
    var ws = new WebSocket(proto + '//' + location.host + '/api/ws/status');

    function escapeHtml(value) {
        return String(value == null ? '' : value)
            .replace(/&/g, '&amp;')
            .replace(/</g, '&lt;')
            .replace(/>/g, '&gt;')
            .replace(/"/g, '&quot;')
            .replace(/'/g, '&#39;');
    }

    function setText(id, text) {
        var el = document.getElementById(id);
        if (el) { el.textContent = text; }
    }

    function formatTime(ts) {
        if (!ts) { return '—'; }
        return new Date(ts * 1000).toLocaleTimeString();
    }

    function renderLinks(id, links, emptyText) {
        var tbody = document.getElementById(id);
        if (!tbody) { return; }
        if (!links || links.length === 0) {
            tbody.innerHTML = '<tr><td colspan="7" class="frames-empty">' + escapeHtml(emptyText) + '</td></tr>';
            return;
        }
        tbody.innerHTML = links.map(function(link) {
            return '<tr>'
                + '<td class="td-hex">' + escapeHtml(link.id || '—') + '</td>'
                + '<td class="td-hex">' + escapeHtml(link.destination || '—') + '</td>'
                + '<td class="td-time">' + escapeHtml(link.status || '—') + '</td>'
                + '<td class="td-len">' + escapeHtml(link.rtt_ms != null ? String(link.rtt_ms) + " ms" : '—') + '</td>'
                + '<td class="td-len">' + escapeHtml(String(link.packets || 0)) + '</td>'
                + '<td class="td-len">' + escapeHtml(String(link.bytes || 0)) + ' B</td>'
                + '<td class="td-time">' + escapeHtml(link.last_event || '—') + '</td>'
                + '</tr>';
        }).join('');
    }

    function renderEvents(events) {
        var tbody = document.getElementById('reticulum-events');
        if (!tbody) { return; }
        if (!events || events.length === 0) {
            tbody.innerHTML = '<tr><td colspan="6" class="frames-empty">No Reticulum events yet</td></tr>';
            return;
        }
        tbody.innerHTML = events.map(function(event) {
            return '<tr>'
                + '<td class="td-time">' + escapeHtml(formatTime(event.ts)) + '</td>'
                + '<td class="td-time">' + escapeHtml(event.direction || '—') + '</td>'
                + '<td class="td-time">' + escapeHtml(event.kind || '—') + '</td>'
                + '<td class="td-hex">' + escapeHtml(event.link_id || '—') + '</td>'
                + '<td class="td-hex">' + escapeHtml(event.destination || '—') + '</td>'
                + '<td class="td-hex">' + escapeHtml(event.details || '—') + '</td>'
                + '</tr>';
        }).join('');
    }

    function renderVpnPeers(peers) {
        var tbody = document.getElementById('vpn-peers');
        if (!tbody) { return; }
        if (!peers || peers.length === 0) {
            tbody.innerHTML = '<tr><td colspan="4" class="frames-empty">No VPN peers configured</td></tr>';
            return;
        }
        tbody.innerHTML = peers.map(function(peer) {
            var routes = (peer.announced_routes || []).join(', ');
            return '<tr>'
                + '<td class="td-hex">' + escapeHtml(peer.destination || '—') + '</td>'
                + '<td class="td-time">' + escapeHtml(peer.link_state || '—') + '</td>'
                + '<td class="td-hex">' + escapeHtml(routes || '—') + '</td>'
                + '<td class="td-time">' + escapeHtml(formatTime(peer.last_seen_ts)) + '</td>'
                + '</tr>';
        }).join('');
    }

    function renderVpnRoutes(routes) {
        var tbody = document.getElementById('vpn-routes');
        if (!tbody) { return; }
        if (!routes || routes.length === 0) {
            tbody.innerHTML = '<tr><td colspan="4" class="frames-empty">No VPN routes announced yet</td></tr>';
            return;
        }
        tbody.innerHTML = routes.map(function(route) {
            return '<tr>'
                + '<td class="td-hex">' + escapeHtml(route.network || '—') + '</td>'
                + '<td class="td-hex">' + escapeHtml(route.owner || '—') + '</td>'
                + '<td class="td-time">' + escapeHtml(route.status || '—') + '</td>'
                + '<td class="td-time">' + escapeHtml(route.installed ? 'yes' : 'no') + '</td>'
                + '</tr>';
        }).join('');
    }

    ws.onmessage = function(ev) {
        try {
            var payload = JSON.parse(ev.data) || {};
            var snapshot = payload.reticulum || {};
            var vpn = payload.vpn || {};
            var incoming = snapshot.incoming_links || [];
            var outgoing = snapshot.outgoing_links || [];
            var events = snapshot.events || [];
            setText('reticulum-incoming-count', String(incoming.length));
            setText('reticulum-outgoing-count', String(outgoing.length));
            setText('reticulum-events-count', String(events.length));
            setText('vpn-status', vpn.status || '—');
            setText('vpn-backend', vpn.backend || '—');
            setText('vpn-interface', vpn.interface_name || '—');
            renderLinks('reticulum-incoming-links', incoming, 'No incoming links seen');
            renderLinks('reticulum-outgoing-links', outgoing, 'No outgoing links seen');
            renderEvents(events);
            renderVpnPeers(vpn.peers || []);
            renderVpnRoutes(vpn.remote_routes || []);
        } catch (e) {}
    };
})();
