<!doctype html>
<html lang="en">
<head>
  <meta charset="utf-8">
  <meta name="viewport" content="width=device-width, initial-scale=1">
  <title>Kaonic Audio PTT</title>
  <style>
    :root {
      color-scheme: dark;
      font-family: -apple-system, BlinkMacSystemFont, "Segoe UI", sans-serif;
    }
    body {
      margin: 0;
      min-height: 100vh;
      background: #0f172a;
      color: #e2e8f0;
      user-select: none;
      -webkit-user-select: none;
      -webkit-touch-callout: none;
      -webkit-tap-highlight-color: transparent;
    }
    .app {
      min-height: 100vh;
      display: flex;
      align-items: stretch;
      padding-bottom: 15rem;
      box-sizing: border-box;
    }
    .sidebar {
      width: min(25rem, 100%);
      padding: 1.4rem 1.15rem;
      background: rgba(2, 6, 23, 0.82);
      border-right: 1px solid #1e293b;
      box-sizing: border-box;
      display: flex;
      flex-direction: column;
      gap: 1rem;
    }
    .content {
      flex: 1;
      min-width: 0;
      padding: 1.5rem;
      display: flex;
      align-items: flex-start;
      justify-content: center;
      box-sizing: border-box;
    }
    .sidebar-header h1 {
      margin: 0 0 0.35rem;
      font-size: 1.6rem;
    }
    .sidebar-header p {
      margin: 0;
      color: #94a3b8;
      line-height: 1.45;
      font-size: 0.96rem;
    }
    .contacts-title {
      display: flex;
      justify-content: space-between;
      align-items: center;
      color: #cbd5e1;
      font-weight: 700;
      letter-spacing: 0.01em;
    }
    .contacts-count {
      font-size: 0.85rem;
      color: #94a3b8;
      font-weight: 600;
    }
    .peer-list {
      display: grid;
      gap: 0.7rem;
      overflow-y: auto;
      padding-right: 0.2rem;
    }
    .peer-card {
      width: 100%;
      text-align: left;
      border: 1px solid #1f2937;
      background: #111827;
      color: inherit;
      border-radius: 1rem;
      padding: 0.95rem 1rem;
      cursor: pointer;
      transition: border-color 0.18s ease, transform 0.18s ease, background 0.18s ease;
      user-select: none;
      -webkit-user-select: none;
    }
    .peer-card:hover {
      border-color: #334155;
      transform: translateY(-1px);
    }
    .peer-card.is-selected {
      border-color: #2563eb;
      background: #0f1f47;
      box-shadow: inset 0 0 0 1px rgba(37, 99, 235, 0.35);
    }
    .peer-card-header {
      display: flex;
      align-items: center;
      justify-content: space-between;
      gap: 0.75rem;
      margin-bottom: 0.45rem;
    }
    .peer-name {
      font-size: 0.98rem;
      font-weight: 700;
      color: #f8fafc;
      word-break: break-all;
    }
    .peer-status {
      display: inline-flex;
      align-items: center;
      gap: 0.4rem;
      white-space: nowrap;
      font-size: 0.82rem;
      color: #cbd5e1;
    }
    .status-dot {
      width: 0.65rem;
      height: 0.65rem;
      border-radius: 999px;
      background: #64748b;
      box-shadow: 0 0 0 0.2rem rgba(100, 116, 139, 0.12);
    }
    .status-dot.is-online {
      background: #22c55e;
      box-shadow: 0 0 0 0.2rem rgba(34, 197, 94, 0.14);
    }
    .status-dot.is-waiting {
      background: #f59e0b;
      box-shadow: 0 0 0 0.2rem rgba(245, 158, 11, 0.14);
    }
    .peer-subtitle {
      color: #94a3b8;
      font-size: 0.84rem;
      line-height: 1.35;
      word-break: break-word;
    }
    .empty-peers {
      padding: 1rem;
      border: 1px dashed #334155;
      border-radius: 1rem;
      color: #94a3b8;
      text-align: center;
      line-height: 1.5;
    }
    .ptt-shell {
      display: none;
    }
    .ptt-overlay {
      position: fixed;
      left: 0;
      right: 0;
      bottom: 0;
      display: flex;
      justify-content: center;
      padding: 0 1rem calc(env(safe-area-inset-bottom, 0px) + 1rem);
      pointer-events: none;
      z-index: 20;
    }
    .mic-wrap {
      display: flex;
      justify-content: center;
      align-items: center;
      width: min(100%, 22rem);
      padding: 1.25rem;
      border-radius: 1.4rem;
      border: 1px solid #1f2937;
      background: #111827;
      box-shadow: 0 24px 48px rgba(0,0,0,0.35);
      box-sizing: border-box;
      pointer-events: auto;
    }
    .mic-btn {
      width: min(20rem, 62vw);
      height: min(20rem, 62vw);
      border: 0;
      border-radius: 999px;
      background: linear-gradient(180deg, #fcd34d, #f59e0b);
      color: #451a03;
      font-size: 1.35rem;
      font-weight: 800;
      box-shadow: 0 20px 40px rgba(245, 158, 11, 0.35);
      touch-action: none;
      user-select: none;
      -webkit-user-select: none;
      -webkit-touch-callout: none;
      transition: transform 0.16s ease, box-shadow 0.16s ease, opacity 0.16s ease;
      display: flex;
      flex-direction: column;
      align-items: center;
      justify-content: center;
      gap: 0.8rem;
      text-align: center;
    }
    .mic-btn:focus {
      outline: none;
    }
    .mic-btn:disabled {
      opacity: 0.6;
    }
    .mic-btn.is-active {
      transform: scale(0.97);
      background: linear-gradient(180deg, #fde68a, #fbbf24);
      box-shadow: 0 0 0 0.85rem rgba(251, 191, 36, 0.2);
    }
    .mic-icon {
      width: 3.9rem;
      height: 3.9rem;
      display: block;
      color: currentColor;
    }
    .mic-label {
      max-width: 10rem;
      line-height: 1.15;
    }
    .status {
      height: 7.4rem;
      padding: 0.95rem 1rem;
      border-radius: 1rem;
      border: 1px solid #1f2937;
      background: #0b1220;
      color: #cbd5e1;
      font-size: 0.98rem;
      white-space: pre-line;
      line-height: 1.45;
      text-align: left;
      box-sizing: border-box;
      overflow-y: auto;
    }
    .playback-status {
      height: 9rem;
      padding: 0.95rem 1rem;
      border-radius: 1rem;
      border: 1px solid #1f2937;
      background: #0b1220;
      text-align: left;
      box-sizing: border-box;
      display: grid;
      grid-template-rows: auto minmax(0, 1fr);
    }
    .playback-status-title {
      color: #cbd5e1;
      font-size: 0.82rem;
      font-weight: 700;
      text-transform: uppercase;
      letter-spacing: 0.08em;
      margin-bottom: 0.55rem;
    }
    .playback-status-body {
      color: #cbd5e1;
      font-size: 0.92rem;
      white-space: pre-line;
      line-height: 1.45;
      overflow-y: auto;
      min-height: 0;
    }
    .hint {
      margin-top: 0.75rem;
      color: #94a3b8;
      font-size: 0.9rem;
      line-height: 1.5;
    }
    @media (max-width: 880px) {
      .app {
        flex-direction: column;
      }
      .sidebar {
        width: 100%;
        border-right: 0;
        border-bottom: 1px solid #1e293b;
      }
      .content {
        padding-top: 1rem;
      }
      .mic-btn {
        width: min(18rem, 72vw);
        height: min(18rem, 72vw);
      }
    }
  </style>
</head>
<body>
  <main class="app">
    <aside class="sidebar">
      <div class="sidebar-header">
        <h1>Kaonic Audio PTT</h1>
        <p>Select a contact on the left. Online contacts can be called immediately; offline ones stay saved until their Reticulum link appears.</p>
      </div>
      <div class="contacts-title">
        <span>Contacts</span>
        <span id="contacts-count" class="contacts-count">0 peers</span>
      </div>
      <div id="peer-list" class="peer-list">
        <div class="empty-peers">Loading contacts…</div>
      </div>
    </aside>
    <section class="content">
      <div class="ptt-shell">
        <div class="playback-status">
          <div class="playback-status-title">Last received audio</div>
          <div id="playback-status" class="playback-status-body">Waiting for audio…</div>
        </div>
        <div id="status" class="status">Loading…</div>
        <div class="hint">Audio is sent over Reticulum links and played by the remote Kaonic audio-ptt plugin on ALSA output.</div>
      </div>
    </section>
  </main>
  <div class="ptt-overlay">
    <div class="mic-wrap">
      <button id="mic-btn" class="mic-btn" type="button" aria-label="Push to Talk">
        <svg class="mic-icon" viewBox="0 0 24 24" aria-hidden="true" focusable="false">
          <path fill="currentColor" d="M12 15.5a4 4 0 0 0 4-4v-5a4 4 0 1 0-8 0v5a4 4 0 0 0 4 4Zm-6-4a1 1 0 1 1 2 0a4 4 0 1 0 8 0a1 1 0 1 1 2 0a6 6 0 0 1-5 5.91V20h2a1 1 0 1 1 0 2H9a1 1 0 1 1 0-2h2v-2.59A6 6 0 0 1 6 11.5Z"/>
        </svg>
        <span class="mic-label">Push to Talk</span>
      </button>
    </div>
  </div>
  <script>
    (function () {
      const SAMPLE_RATE = 16000;
      const FRAME_SAMPLES = 320;
      const STATUS_POLL_MS = 3000;
      const micBtn = document.getElementById('mic-btn');
      const statusEl = document.getElementById('status');
      const playbackStatusEl = document.getElementById('playback-status');
      const peerListEl = document.getElementById('peer-list');
      const contactsCountEl = document.getElementById('contacts-count');

      let stream = null;
      let audioContext = null;
      let sourceNode = null;
      let processor = null;
      let muteNode = null;
      let ws = null;
      let queue = [];
      let starting = false;
      let active = false;
      let currentStatus = null;
      let pollHandle = null;
      let streamPromise = null;

      function setStatus(text) {
        statusEl.textContent = text;
      }

      function setPlaybackStatus(text) {
        playbackStatusEl.textContent = text;
      }

      async function primeMicrophone() {
        if (stream && stream.active && stream.getTracks().some(function (track) { return track.readyState === 'live'; })) {
          return stream;
        }
        if (!streamPromise) {
          streamPromise = navigator.mediaDevices.getUserMedia({
            audio: {
              channelCount: 1,
              echoCancellation: true,
              noiseSuppression: true,
              autoGainControl: true
            }
          }).then(function (mediaStream) {
            stream = mediaStream;
            return mediaStream;
          }).finally(function () {
            streamPromise = null;
          });
        }
        return streamPromise;
      }

      function selectedPeer() {
        return currentStatus && currentStatus.config ? currentStatus.config.selected_peer : null;
      }

      function selectedPeerSnapshot() {
        const selected = selectedPeer();
        const peers = (currentStatus && currentStatus.peers) || [];
        return peers.find(function (peer) { return peer.hash === selected; }) || null;
      }

      function peersWithSavedSelection() {
        const peers = ((currentStatus && currentStatus.peers) || []).slice();
        const selected = selectedPeer();
        if (selected && !peers.some(function (peer) { return peer.hash === selected; })) {
          peers.unshift({
            hash: selected,
            status: 'waiting',
            last_seen_ts: 0
          });
        }
        return peers;
      }

      function statusClass(status) {
        if (status === 'active') { return 'is-online'; }
        if (status === 'connecting' || status === 'pending' || status === 'waiting') { return 'is-waiting'; }
        return '';
      }

      function statusLabel(status) {
        if (status === 'active') { return 'Online'; }
        if (status === 'connecting') { return 'Connecting'; }
        if (status === 'pending') { return 'Pending'; }
        if (status === 'waiting') { return 'Waiting for announce'; }
        return 'Offline';
      }

      function peerSubtitle(peer) {
        if (peer.last_seen_ts) {
          return 'Last seen ' + new Date(peer.last_seen_ts * 1000).toLocaleTimeString();
        }
        if (peer.status === 'active') {
          return 'Ready to talk';
        }
        return 'Saved contact';
      }

      function renderPeerList() {
        const peers = peersWithSavedSelection();
        contactsCountEl.textContent = peers.length === 1 ? '1 peer' : (peers.length + ' peers');
        if (!peers.length) {
          peerListEl.innerHTML = '<div class="empty-peers">No discovered contacts yet.\nWait for a Reticulum announce from another Kaonic audio-ptt node.</div>';
          return;
        }
        const selected = selectedPeer();
        peerListEl.innerHTML = peers.map(function (peer) {
          const chosen = peer.hash === selected ? ' is-selected' : '';
          const label = statusLabel(peer.status);
          return ''
            + '<button type="button" class="peer-card' + chosen + '" data-peer-hash="' + peer.hash + '">'
            +   '<div class="peer-card-header">'
            +     '<div class="peer-name">' + peer.hash + '</div>'
            +     '<div class="peer-status"><span class="status-dot ' + statusClass(peer.status) + '"></span><span>' + label + '</span></div>'
            +   '</div>'
            +   '<div class="peer-subtitle">' + peerSubtitle(peer) + '</div>'
            + '</button>';
        }).join('');
        peerListEl.querySelectorAll('[data-peer-hash]').forEach(function (button) {
          button.addEventListener('click', function () {
            choosePeer(button.getAttribute('data-peer-hash')).catch(function (err) {
              setStatus('Error: ' + (err && err.message ? err.message : err));
            });
          });
        });
      }

      async function loadStatus() {
        const resp = await fetch('/api/status');
        const data = await resp.json();
        currentStatus = data;
        renderPeerList();
        const peer = selectedPeerSnapshot();
        const lines = [
          'My destination: ' + data.local_destination,
          'Selected contact: ' + (selectedPeer() || 'not configured'),
          'Link state: ' + (peer ? statusLabel(peer.status) : 'Waiting for announce'),
          'Playback device: ' + data.config.playback_device,
          'Capture device: ' + data.config.capture_device
        ];
        if (data.transmitting) {
          lines.push('Transmit source: ' + (data.active_source || 'active'));
        }
        setStatus(lines.join('\n'));

        const playbackLines = [];
        playbackLines.push('Last source: ' + (data.last_remote || 'No audio received yet'));
        playbackLines.push('Played frames: ' + data.played_frames);
        playbackLines.push('Dropped frames: ' + data.playback_drops);
        if (data.last_played_ts) {
          playbackLines.push('Last played: ' + new Date(data.last_played_ts * 1000).toLocaleTimeString());
        } else {
          playbackLines.push('Last played: Waiting for audio');
        }
        if (data.last_played_samples) {
          playbackLines.push('Last frame: ' + data.last_played_samples + ' samples');
        }
        if (data.last_playback_error) {
          const when = data.last_playback_error_ts
            ? ' at ' + new Date(data.last_playback_error_ts * 1000).toLocaleTimeString()
            : '';
          playbackLines.push('Last error: ' + data.last_playback_error + when);
        } else {
          playbackLines.push('Last error: None');
        }
        setPlaybackStatus(playbackLines.join('\n'));
      }

      async function saveSelectedPeer(peerHash) {
        if (!currentStatus) {
          await loadStatus();
        }
        const payload = {
          selected_peer: peerHash || null,
          capture_device: currentStatus.config.capture_device,
          playback_device: currentStatus.config.playback_device
        };
        const resp = await fetch('/api/config', {
          method: 'PUT',
          headers: { 'Content-Type': 'application/json' },
          body: JSON.stringify(payload)
        });
        const data = await resp.json().catch(function () { return {}; });
        if (!resp.ok) {
          throw new Error(data.detail || ('HTTP ' + resp.status));
        }
        await loadStatus();
        setStatus((data.detail || 'Contact selected') + '\nSelected contact: ' + (payload.selected_peer || 'not configured'));
      }

      async function choosePeer(peerHash) {
        if (!peerHash) {
          return;
        }
        await saveSelectedPeer(peerHash);
      }

      function downsample(input, inputRate, outputRate) {
        if (inputRate === outputRate) {
          return input;
        }
        const ratio = inputRate / outputRate;
        const outputLength = Math.max(1, Math.round(input.length / ratio));
        const output = new Float32Array(outputLength);
        let offsetResult = 0;
        let offsetBuffer = 0;
        while (offsetResult < output.length) {
          const nextOffsetBuffer = Math.min(input.length, Math.round((offsetResult + 1) * ratio));
          let accum = 0;
          let count = 0;
          for (let i = offsetBuffer; i < nextOffsetBuffer; i += 1) {
            accum += input[i];
            count += 1;
          }
          output[offsetResult] = count ? (accum / count) : 0;
          offsetResult += 1;
          offsetBuffer = nextOffsetBuffer;
        }
        return output;
      }

      function appendSamples(floatSamples, sourceRate) {
        const resampled = downsample(floatSamples, sourceRate, SAMPLE_RATE);
        for (let i = 0; i < resampled.length; i += 1) {
          const sample = Math.max(-1, Math.min(1, resampled[i]));
          queue.push(sample < 0 ? sample * 0x8000 : sample * 0x7fff);
        }
        while (queue.length >= FRAME_SAMPLES && ws && ws.readyState === WebSocket.OPEN) {
          const frame = new Int16Array(FRAME_SAMPLES);
          for (let i = 0; i < FRAME_SAMPLES; i += 1) {
            frame[i] = queue[i];
          }
          queue = queue.slice(FRAME_SAMPLES);
          ws.send(frame.buffer);
        }
      }

      async function startTalk() {
        if (active || starting) { return; }
        const chosenPeer = selectedPeer();
        if (!chosenPeer) {
          setStatus('Select a contact first.');
          return;
        }
        starting = true;
        try {
          await saveSelectedPeer(chosenPeer);
          await primeMicrophone();
          audioContext = new (window.AudioContext || window.webkitAudioContext)();
          sourceNode = audioContext.createMediaStreamSource(stream);
          processor = audioContext.createScriptProcessor(4096, 1, 1);
          muteNode = audioContext.createGain();
          muteNode.gain.value = 0;
          ws = new WebSocket((location.protocol === 'https:' ? 'wss://' : 'ws://') + location.host + '/ws/browser-ptt');
          ws.binaryType = 'arraybuffer';

          await new Promise(function (resolve, reject) {
            ws.onopen = resolve;
            ws.onerror = function () { reject(new Error('WebSocket connection failed')); };
          });

          processor.onaudioprocess = function (event) {
            if (!active || !ws || ws.readyState !== WebSocket.OPEN) { return; }
            const input = event.inputBuffer.getChannelData(0);
            appendSamples(input, audioContext.sampleRate);
          };

          sourceNode.connect(processor);
          processor.connect(muteNode);
          muteNode.connect(audioContext.destination);
          active = true;
          micBtn.classList.add('is-active');
          setStatus('Talking to ' + chosenPeer + '… release to stop');
        } catch (err) {
          setStatus('Error: ' + (err && err.message ? err.message : err));
          await stopTalk();
        } finally {
          starting = false;
        }
      }

      async function stopTalk() {
        queue = [];
        active = false;
        micBtn.classList.remove('is-active');
        if (processor) {
          processor.onaudioprocess = null;
          try { processor.disconnect(); } catch (_) {}
          processor = null;
        }
        if (sourceNode) {
          try { sourceNode.disconnect(); } catch (_) {}
          sourceNode = null;
        }
        if (muteNode) {
          try { muteNode.disconnect(); } catch (_) {}
          muteNode = null;
        }
        if (audioContext) {
          try { await audioContext.close(); } catch (_) {}
          audioContext = null;
        }
        if (ws) {
          try { ws.close(); } catch (_) {}
          ws = null;
        }
        await loadStatus().catch(function () {});
      }

      micBtn.addEventListener('pointerdown', function (event) {
        event.preventDefault();
        if (document.activeElement instanceof HTMLElement) {
          document.activeElement.blur();
        }
        micBtn.setPointerCapture(event.pointerId);
        startTalk();
      });
      micBtn.addEventListener('pointerup', function () { stopTalk(); });
      micBtn.addEventListener('pointercancel', function () { stopTalk(); });
      micBtn.addEventListener('lostpointercapture', function () { stopTalk(); });
      micBtn.addEventListener('contextmenu', function (event) { event.preventDefault(); });

      window.addEventListener('beforeunload', function () {
        stopTalk();
        if (stream) {
          stream.getTracks().forEach(function (track) { track.stop(); });
          stream = null;
        }
        if (pollHandle) { clearInterval(pollHandle); }
      });

      loadStatus().catch(function (err) {
        setStatus('Error: ' + (err && err.message ? err.message : err));
      });
      primeMicrophone().then(function () {
        loadStatus().catch(function () {});
      }).catch(function (err) {
        setStatus('Microphone permission required: ' + (err && err.message ? err.message : err));
      });
      pollHandle = window.setInterval(function () {
        loadStatus().catch(function (err) {
          setStatus('Error: ' + (err && err.message ? err.message : err));
        });
      }, STATUS_POLL_MS);
    })();
  </script>
</body>
</html>
