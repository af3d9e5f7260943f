function kaonic_upload(target, inputId, statusId) {
    var input = document.getElementById(inputId);
    var status = document.getElementById(statusId);
    if (!input.files || !input.files[0]) {
        status.textContent = 'No file selected.';
        status.className = 'update-status err';
        return;
    }
    var form = new FormData();
    form.append('file', input.files[0]);
    status.textContent = 'Uploading…';
    status.className = 'update-status pending';
    fetch('/api/update/' + target + '/upload', { method: 'POST', body: form })
        .then(function(r) { return r.json(); })
        .then(function(d) {
            status.textContent = d.detail || 'Done';
            status.className = 'update-status ' + (d.detail && d.detail.toLowerCase().includes('fail') ? 'err' : 'ok');
        })
        .catch(function(e) {
            status.textContent = 'Error: ' + e;
            status.className = 'update-status err';
        });
}

(function() {
    function setRebootStatus(text, kind) {
        var status = document.getElementById('system-reboot-status');
        if (!status) { return; }
        status.textContent = text;
        status.className = kind || '';
    }

    function openRebootModal() {
        var modal = document.getElementById('system-reboot-modal');
        if (!modal) { return; }
        modal.hidden = false;
        document.body.classList.add('modal-open');
        setRebootStatus('', '');
    }

    function closeRebootModal() {
        var modal = document.getElementById('system-reboot-modal');
        if (!modal) { return; }
        modal.hidden = true;
        document.body.classList.remove('modal-open');
    }

    document.addEventListener('click', function(ev) {
        var target = ev.target;
        if (!(target instanceof Element)) { return; }

        if (target.closest('#system-reboot-open')) {
            openRebootModal();
            return;
        }

        if (target.closest('[data-close-system-reboot]')) {
            closeRebootModal();
            return;
        }

        if (target.id === 'system-reboot-modal') {
            closeRebootModal();
        }
    });

    var confirmBtn = document.getElementById('system-reboot-confirm');
    if (confirmBtn) {
        confirmBtn.addEventListener('click', function() {
            confirmBtn.disabled = true;
            setRebootStatus('Requesting reboot…', 'flash-ok');
            fetch('/api/system/reboot', { method: 'POST' })
                .then(function(resp) {
                    if (!resp.ok) {
                        return resp.text().then(function(text) {
                            throw new Error(text || ('HTTP ' + resp.status));
                        });
                    }
                    return resp.json();
                })
                .then(function(data) {
                    setRebootStatus((data && data.status) || 'Reboot requested', 'flash-ok');
                })
                .catch(function(err) {
                    setRebootStatus('Error: ' + (err.message || err), 'flash-err');
                    confirmBtn.disabled = false;
                });
        });
    }

    window.addEventListener('keydown', function(ev) {
        if (ev.key === 'Escape') {
            closeRebootModal();
        }
    });
})();
