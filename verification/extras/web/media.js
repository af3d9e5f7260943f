(function() {
    var API_ROOT = '/api/audio/';

    function initAudio(id) {
        var card    = document.getElementById('audio-' + id);
        var slider  = document.getElementById('vol-' + id);
        var display = document.getElementById('voldsp-' + id);
        var bars    = document.querySelectorAll('#volbars-' + id + ' .vol-bar');
        var muteBtn = document.getElementById('mute-' + id);
        var status  = document.getElementById('status-' + id);
        var saveTimer = null;
        var inFlight = 0;
        var state = {
            volume: parseInt(slider.value, 10) || 0,
            muted: false,
            backend: 'Mock'
        };

        function setStatus(text, kind) {
            if (!status) { return; }
            status.textContent = text;
            status.className = 'audio-status' + (kind ? ' ' + kind : '');
        }

        function setBusy(busy) {
            card.classList.toggle('is-loading', busy);
            slider.disabled = busy;
            muteBtn.disabled = busy;
        }

        function updateBars(vol) {
            var total = bars.length;
            bars.forEach(function(b, i) {
                b.classList.toggle('active', !state.muted && i < Math.round(vol / 100 * total));
            });
        }

        function applyVolume() {
            slider.value = String(state.volume);
            display.textContent = state.muted ? 'Muted' : state.volume + '%';
            updateBars(state.muted ? 0 : state.volume);
            card.classList.toggle('is-muted', state.muted);
            muteBtn.querySelector('.mute-label').textContent = state.muted ? 'Unmute' : 'Mute';
        }

        function syncState(next) {
            if (!next) { return; }
            state.volume = Math.max(0, Math.min(100, parseInt(next.volume, 10) || 0));
            state.muted = !!next.muted;
            if (next.backend) {
                state.backend = next.backend;
            }
            applyVolume();
            setStatus(state.backend, 'ok');
        }

        function readState() {
            setBusy(true);
            fetch(API_ROOT + id)
                .then(function(resp) {
                    if (!resp.ok) {
                        return resp.text().then(function(text) {
                            throw new Error(text || ('HTTP ' + resp.status));
                        });
                    }
                    return resp.json();
                })
                .then(syncState)
                .catch(function(err) {
                    setStatus(String(err && err.message ? err.message : err), 'err');
                })
                .finally(function() {
                    setBusy(false);
                });
        }

        function writeState() {
            inFlight += 1;
            setBusy(true);

            fetch(API_ROOT + id, {
                method: 'PUT',
                headers: { 'Content-Type': 'application/json' },
                body: JSON.stringify({
                    volume: state.volume,
                    muted: state.muted
                })
            })
                .then(function(resp) {
                    if (!resp.ok) {
                        return resp.text().then(function(text) {
                            throw new Error(text || ('HTTP ' + resp.status));
                        });
                    }
                    return resp.json();
                })
                .then(syncState)
                .catch(function(err) {
                    setStatus(String(err && err.message ? err.message : err), 'err');
                })
                .finally(function() {
                    inFlight = Math.max(0, inFlight - 1);
                    setBusy(inFlight > 0);
                });
        }

        function scheduleWrite() {
            clearTimeout(saveTimer);
            saveTimer = setTimeout(writeState, 150);
        }

        slider.addEventListener('input', function() {
            state.volume = Math.max(0, Math.min(100, parseInt(slider.value, 10) || 0));
            if (state.muted) { state.muted = false; }
            applyVolume();
            scheduleWrite();
        });

        slider.addEventListener('change', function() {
            clearTimeout(saveTimer);
            writeState();
        });

        muteBtn.addEventListener('click', function() {
            clearTimeout(saveTimer);
            state.muted = !state.muted;
            applyVolume();
            writeState();
        });

        applyVolume();
        setStatus('Loading...', 'pending');
        readState();
    }

    initAudio('speaker');
    initAudio('headphones');
})();
