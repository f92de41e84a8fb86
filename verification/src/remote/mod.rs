pub mod request;

use vstd::prelude::*;

use crate::models::project::ProjectSettings;
use crate::models::recording::RecordingStatus;
use crate::models::slot::Slot;
use crate::models::timeline::TimelineEvent;
use crate::recording::engine::RecordingEngine;
use crate::timeline::playback::{PlaybackEngine, PlaybackStatus};
use crate::timeline::state::TimelineState;

use crate::text::{
    chars_of, chars_range_eq, decimal, joined, push_decimal, push_str, str_eq, string_from_chars,
};

verus! {

/// The page that the remote control serves at `/`.
pub const REMOTE_HTML: &'static str = r#"<!doctype html>
<html>
  <head>
    <meta charset="utf-8" />
    <meta name="viewport" content="width=device-width, initial-scale=1" />
    <title>SFX Board Remote</title>
    <link rel="stylesheet" href="/remote/styles.css" />
  </head>
  <body>
    <div id="app"></div>
    <script src="/remote/app.js"></script>
  </body>
</html>"#;

/// The style sheet of the remote control page.
pub const REMOTE_CSS: &'static str = r#":root{color-scheme:dark}
*{box-sizing:border-box}
body{margin:0;padding:10px;font-family:system-ui,-apple-system,Segoe UI,sans-serif;background:#080d1a;color:#f8fafc}
.app{display:grid;gap:10px;max-width:980px;margin:0 auto}
.top{display:flex;align-items:center;justify-content:space-between;gap:8px;flex-wrap:wrap}
.project{font-size:15px;font-weight:700}
.meta{font-size:12px;color:#9aa4b5}
.controls{display:flex;gap:8px}
.btn{border:1px solid #334155;border-radius:10px;padding:8px 12px;background:#192334;color:#f8fafc;font-weight:700}
.btn:active{transform:scale(.97)}
.grid{display:grid;gap:8px}
.slot-card{position:relative;height:102px;border:1px solid #334155;border-top:3px solid var(--slot-color);border-radius:10px;background:linear-gradient(160deg,#111827,#1a2235);color:#f8fafc;display:flex;flex-direction:column;justify-content:space-between;padding:8px;overflow:hidden}
.slot-loaded{cursor:pointer;transition:transform 120ms ease,border-color 120ms ease}
.slot-loaded:active{transform:scale(.98)}
.slot-playing{animation:slotPulse 260ms ease}
.slot-head{display:flex;justify-content:space-between;align-items:flex-start;gap:8px}
.slot-label{white-space:nowrap;overflow:hidden;text-overflow:ellipsis;font-size:14px;font-weight:700}
.slot-short{font-size:11px;border:1px solid #4b5563;border-radius:10px;min-width:30px;max-width:42px;aspect-ratio:1/1;color:#9ca3af;text-align:center;background:rgba(11,17,28,.9);display:inline-flex;align-items:center;justify-content:center;line-height:1}
.slot-short-active{color:#f9fafb;border-color:color-mix(in srgb,var(--slot-color) 55%,#334155);background:color-mix(in srgb,var(--slot-color) 28%,#111827)}
.slot-meta{margin-top:2px;font-size:11px;color:#9ca3af;display:flex;justify-content:space-between;gap:8px}
.slot-file{min-width:0;white-space:nowrap;overflow:hidden;text-overflow:ellipsis}
.slot-empty{justify-content:center;align-items:center;opacity:.55;border:1px dashed #334155;background:#111827;color:#9aa4b5}
@keyframes slotPulse{0%{box-shadow:0 0 0 0 color-mix(in srgb,var(--slot-color) 50%,transparent)}100%{box-shadow:0 0 0 12px transparent}}
@media (max-width:640px){body{padding:8px}.slot-card{height:96px;padding:7px}.slot-label{font-size:13px}}
"#;

/// The script of the remote control page.
pub const REMOTE_APP_JS: &'static str = r#"(() => {
const token = new URLSearchParams(location.search).get('token') || '';

function esc(text){
  return String(text ?? '')
    .replaceAll('&','&amp;')
    .replaceAll('<','&lt;')
    .replaceAll('>','&gt;')
    .replaceAll('"','&quot;')
    .replaceAll("'","&#39;");
}

function fmtMs(ms){
  const n = Math.max(0, Math.floor(ms || 0));
  const m = String(Math.floor(n/60000)).padStart(2,'0');
  const s = String(Math.floor((n%60000)/1000)).padStart(2,'0');
  const mm = String(n%1000).padStart(3,'0');
  return `${m}:${s}.${mm}`;
}

async function send(payload){
  try{
    await fetch('/api/command?token='+encodeURIComponent(token),{
      method:'POST',
      headers:{'content-type':'application/json'},
      body:JSON.stringify(payload)
    });
  }catch{}
}

const app = document.getElementById('app');
let pressed = {};
let currentState = null;
let currentStatus = 'connecting...';
let stream = null;
let reconnectTimer = null;

function render(state, status){
  const rows = Math.max(1, state?.boardRows || 1);
  const cols = Math.max(1, state?.boardColumns || 1);
  const cap = rows * cols;
  const slotsByPos = new Map((state?.slots || []).map(s => [s.position, s]));
  let cards = '';
  for(let i=0;i<cap;i++){
    const slot = slotsByPos.get(i);
    if(!slot){
      cards += `<div class="slot-card slot-empty"><div class="slot-label">Empty</div><div class="slot-meta"><span>Slot ${i+1}</span></div></div>`;
      continue;
    }
    const color = slot.color || '#3a3a3a';
    const isPlaying = pressed[slot.id] ? 'slot-playing' : '';
    const file = String(slot.audioPath || '').split(/[\\/]/).filter(Boolean).pop() || slot.label || 'Untitled';
    cards += `<article class="slot-card slot-loaded ${isPlaying}" data-slot-id="${esc(slot.id)}" style="--slot-color:${esc(color)}">
      <div class="slot-head">
        <span class="slot-label" title="${esc(slot.label)}">${esc(slot.label || 'Untitled')}</span>
        <span class="slot-short ${(slot.shortcut ? 'slot-short-active' : '')}">${esc(slot.shortcut || '--')}</span>
      </div>
      <div class="slot-meta">
        <span class="slot-file" title="${esc(file)}">${esc(file)}</span>
        <span>${(slot.durationMs/1000).toFixed(2)}s</span>
      </div>
    </article>`;
  }

  const transport = status || 'connecting...';
  const stateStatus = state
    ? `${state.playbackStatus} | ${state.recordingStatus} | ${fmtMs(state.playheadMs)}`
    : 'waiting for state...';
  app.innerHTML = `
    <div class="app">
      <div class="top">
        <div>
          <div class="project">${esc(state?.projectName || 'SFX Board Remote')}</div>
          <div class="meta">${esc(transport)} | ${esc(stateStatus)}</div>
        </div>
        <div class="controls"><button class="btn" id="stopAllBtn">Stop All</button></div>
      </div>
      <div class="grid" style="grid-template-columns:repeat(${cols}, minmax(0,1fr))">${cards}</div>
    </div>
  `;

  const stopAllBtn = document.getElementById('stopAllBtn');
  if (stopAllBtn) {
    stopAllBtn.onclick = () => { void send({kind:'stop_all_audio'}); };
  }

  app.querySelectorAll('.slot-loaded').forEach((card) => {
    card.addEventListener('click', async () => {
      const slotId = card.getAttribute('data-slot-id');
      if (!slotId) return;
      pressed = {...pressed, [slotId]: true};
      render(state, status);
      setTimeout(() => {
        pressed = {...pressed, [slotId]: false};
        render(currentState, currentStatus);
      }, 220);
      await send({kind:'trigger_slot', slotId});
    });
  });
}

function connectStream(){
  if (reconnectTimer) {
    clearTimeout(reconnectTimer);
    reconnectTimer = null;
  }
  if (stream) {
    stream.close();
    stream = null;
  }
  currentStatus = 'connecting...';
  render(currentState, currentStatus);

  const url = '/api/events?token='+encodeURIComponent(token);
  stream = new EventSource(url);

  stream.addEventListener('open', () => {
    currentStatus = 'connected';
    render(currentState, currentStatus);
  });

  stream.addEventListener('state', (event) => {
    try{
      currentState = JSON.parse(event.data);
      currentStatus = 'connected';
      render(currentState, currentStatus);
    }catch{
      currentStatus = 'decode error';
      render(currentState, currentStatus);
    }
  });

  stream.addEventListener('error', () => {
    currentStatus = 'reconnecting...';
    render(currentState, currentStatus);
    if (stream) {
      stream.close();
      stream = null;
    }
    reconnectTimer = setTimeout(connectStream, 1200);
  });
}

window.addEventListener('beforeunload', () => {
  if (reconnectTimer) {
    clearTimeout(reconnectTimer);
    reconnectTimer = null;
  }
  if (stream) {
    stream.close();
    stream = null;
  }
});

connectStream();
})();"#;

pub fn remote_html() -> (r: &'static str)
    ensures
        r@ == REMOTE_HTML@,
{
    REMOTE_HTML
}

pub fn remote_css() -> (r: &'static str)
    ensures
        r@ == REMOTE_CSS@,
{
    REMOTE_CSS
}

pub fn remote_app_js() -> (r: &'static str)
    ensures
        r@ == REMOTE_APP_JS@,
{
    REMOTE_APP_JS
}

/// What the remote control server reports of itself.
pub struct RemoteControlStatus {
    pub running: bool,
    pub port: Option<u16>,
    pub token: Option<String>,
    pub url: Option<String>,
}

/// The address a phone on the same network opens to reach the remote control.
pub open spec fn remote_url(ip: Seq<char>, port: u16, token: Seq<char>) -> Seq<char> {
    "http://"@ + ip + ":"@ + decimal(port as nat) + "/?token="@ + token
}

/// Whether the remote control server runs, on which port, with which access token.
pub struct RemoteControlManager {
    running: bool,
    port: Option<u16>,
    token: Option<String>,
}

/// What a remote control manager shows of itself.
pub struct RemoteControlView {
    pub running: bool,
    pub port: Option<u16>,
    pub token: Option<Seq<char>>,
}

impl View for RemoteControlManager {
    type V = RemoteControlView;

    closed spec fn view(&self) -> RemoteControlView {
        RemoteControlView {
            running: self.running,
            port: self.port,
            token: match self.token {
                Some(t) => Some(t@),
                None => None,
            },
        }
    }
}

/// Whether `s` reports the state `v` of a manager, with `ip` as this machine's address.
pub open spec fn reports(s: RemoteControlStatus, v: RemoteControlView, ip: Seq<char>) -> bool {
    &&& s.running == v.running
    &&& s.port == v.port
    &&& match (s.token, v.token) {
        (Some(a), Some(b)) => a@ == b,
        (None, None) => true,
        _ => false,
    }
    &&& match (v.port, v.token) {
        (Some(p), Some(t)) => s.url matches Some(u) && u@ == remote_url(ip, p, t),
        _ => s.url is None,
    }
}

impl RemoteControlManager {
    pub fn new() -> (r: Self)
        ensures
            r@ == (RemoteControlView { running: false, port: None, token: None }),
    {
        RemoteControlManager { running: false, port: None, token: None }
    }

    /// Whether the server runs.
    pub fn is_running(&self) -> (r: bool)
        ensures
            r == self@.running,
    {
        self.running
    }

    /// The status, with `local_ip` as this machine's address in the URL.
    pub fn status(&self, local_ip: &str) -> (r: RemoteControlStatus)
        ensures
            reports(r, self@, local_ip@),
    {
        let token = match &self.token {
            Some(t) => Some(t.clone()),
            None => None,
        };
        let url = match (self.port, &self.token) {
            (Some(port), Some(token)) => {
                let mut chars: Vec<char> = Vec::new();
                push_str(&mut chars, "http://");
                push_str(&mut chars, local_ip);
                push_str(&mut chars, ":");
                push_decimal(&mut chars, port as u64);
                push_str(&mut chars, "/?token=");
                push_str(&mut chars, token.as_str());
                proof {
                    assert(chars@ =~= remote_url(local_ip@, port, token@));
                }
                Some(string_from_chars(&chars))
            },
            _ => None,
        };
        RemoteControlStatus { running: self.running, port: self.port, token, url }
    }

    /// Records that the server now listens on `port` and accepts `token`.
    pub fn mark_started(&mut self, port: u16, token: String)
        ensures
            final(self)@ == (RemoteControlView { running: true, port: Some(port), token: Some(token@) }),
    {
        self.running = true;
        self.port = Some(port);
        self.token = Some(token);
    }

    /// Records that the server stopped and reports the new status.
    pub fn stop(&mut self, local_ip: &str) -> (r: RemoteControlStatus)
        ensures
            final(self)@ == (RemoteControlView { running: false, port: None, token: None }),
            reports(r, final(self)@, local_ip@),
    {
        self.running = false;
        self.port = None;
        self.token = None;
        self.status(local_ip)
    }
}

/// Whether the four bytes from `i` on are a blank line after headers, `\r\n\r\n`.
pub open spec fn header_end_at(b: Seq<u8>, i: int) -> bool {
    &&& 0 <= i
    &&& i + 4 <= b.len()
    &&& b[i] == 13
    &&& b[i + 1] == 10
    &&& b[i + 2] == 13
    &&& b[i + 3] == 10
}

/// Where the first `\r\n\r\n` starts in `buffer`.
pub fn find_header_end(buffer: &[u8]) -> (r: Option<usize>)
    ensures
        r matches Some(i) ==> header_end_at(buffer@, i as int) && forall|k: int|
            0 <= k < i ==> !header_end_at(buffer@, k),
        r is None ==> forall|k: int| 0 <= k < buffer@.len() ==> !header_end_at(buffer@, k),
{
    if buffer.len() < 4 {
        return None;
    }
    let mut i: usize = 0;
    while i < buffer.len() - 3
        invariant
            buffer@.len() >= 4,
            i + 3 <= buffer@.len(),
            forall|k: int| 0 <= k < i ==> !header_end_at(buffer@, k),
        decreases buffer.len() - i,
    {
        if buffer[i] == 13 && buffer[i + 1] == 10 && buffer[i + 2] == 13 && buffer[i + 3] == 10 {
            return Some(i);
        }
        i = i + 1;
    }
    None
}

/// What the remote control server does with a request.
#[derive(Clone, Copy, Debug, PartialEq, Eq, Structural)]
pub enum RemoteRoute {
    /// The peer is not on the local network.
    Forbidden,
    Page,
    Favicon,
    StyleSheet,
    Script,
    /// The request lacks the access token.
    Unauthorized,
    StateSnapshot,
    EventStream,
    Command,
    NotFound,
}

/// The route of a request from a peer that is (`lan_ok`) or is not on the
/// local network, with or without the right token.
pub open spec fn route_of(lan_ok: bool, method: Seq<char>, path: Seq<char>, token_ok: bool) -> RemoteRoute {
    if !lan_ok {
        RemoteRoute::Forbidden
    } else if path == "/"@ {
        RemoteRoute::Page
    } else if method == "GET"@ && path == "/favicon.ico"@ {
        RemoteRoute::Favicon
    } else if method == "GET"@ && path == "/remote/styles.css"@ {
        RemoteRoute::StyleSheet
    } else if method == "GET"@ && path == "/remote/app.js"@ {
        RemoteRoute::Script
    } else if !token_ok {
        RemoteRoute::Unauthorized
    } else if method == "GET"@ && path == "/api/state"@ {
        RemoteRoute::StateSnapshot
    } else if method == "GET"@ && path == "/api/events"@ {
        RemoteRoute::EventStream
    } else if method == "POST"@ && path == "/api/command"@ {
        RemoteRoute::Command
    } else {
        RemoteRoute::NotFound
    }
}

/// Decides how to answer a request.
pub fn route_request(lan_ok: bool, method: &str, path: &str, token_ok: bool) -> (r: RemoteRoute)
    ensures
        r == route_of(lan_ok, method@, path@, token_ok),
{
    if !lan_ok {
        return RemoteRoute::Forbidden;
    }
    if str_eq(path, "/") {
        return RemoteRoute::Page;
    }
    let get = str_eq(method, "GET");
    if get && str_eq(path, "/favicon.ico") {
        return RemoteRoute::Favicon;
    }
    if get && str_eq(path, "/remote/styles.css") {
        return RemoteRoute::StyleSheet;
    }
    if get && str_eq(path, "/remote/app.js") {
        return RemoteRoute::Script;
    }
    if !token_ok {
        return RemoteRoute::Unauthorized;
    }
    if get && str_eq(path, "/api/state") {
        return RemoteRoute::StateSnapshot;
    }
    if get && str_eq(path, "/api/events") {
        return RemoteRoute::EventStream;
    }
    if str_eq(method, "POST") && str_eq(path, "/api/command") {
        return RemoteRoute::Command;
    }
    RemoteRoute::NotFound
}

/// What a remote command asks for.
pub enum RemoteAction {
    TriggerSlot(String),
    StopAllAudio,
}

/// Reads a command sent by the remote control page.
pub fn parse_remote_command(kind: &str, slot_id: Option<String>) -> (r: Result<RemoteAction, String>)
    ensures
        kind@ == "trigger_slot"@ ==> match slot_id {
            Some(id) => r matches Ok(RemoteAction::TriggerSlot(s)) && s == id,
            None => r matches Err(e) && e@ == "slotId is required for trigger_slot"@,
        },
        kind@ == "stop_all_audio"@ ==> r matches Ok(RemoteAction::StopAllAudio),
        kind@ != "trigger_slot"@ && kind@ != "stop_all_audio"@ ==> (r matches Err(e) && e@
            == "unsupported command kind: "@ + kind@),
{
    proof {
        reveal_strlit("trigger_slot");
        reveal_strlit("stop_all_audio");
        assert("trigger_slot"@.len() != "stop_all_audio"@.len());
    }
    if str_eq(kind, "trigger_slot") {
        match slot_id {
            Some(id) => Ok(RemoteAction::TriggerSlot(id)),
            None => Err("slotId is required for trigger_slot".to_string()),
        }
    } else if str_eq(kind, "stop_all_audio") {
        Ok(RemoteAction::StopAllAudio)
    } else {
        Err(joined("unsupported command kind: ", kind))
    }
}

/// The address of the peer of a connection, as numbers.
pub enum PeerAddress {
    V4([u8; 4]),
    V6([u16; 8]),
}

/// Whether the peer is this machine or on a private or link-local network:
/// for IPv4 `10.0.0.0/8`, `172.16.0.0/12`, `192.168.0.0/16`, `127.0.0.0/8`
/// and `169.254.0.0/16`; for IPv6 `::1`, `fc00::/7` and `fe80::/10`.
pub open spec fn lan_or_loopback(ip: PeerAddress) -> bool {
    match ip {
        PeerAddress::V4(o) => {
            ||| o[0] == 10
            ||| o[0] == 172 && 16 <= o[1] <= 31
            ||| o[0] == 192 && o[1] == 168
            ||| o[0] == 127
            ||| o[0] == 169 && o[1] == 254
        },
        PeerAddress::V6(s) => {
            ||| s[0] == 0 && s[1] == 0 && s[2] == 0 && s[3] == 0 && s[4] == 0 && s[5] == 0 && s[6]
                == 0 && s[7] == 1
            ||| 0xfc00 <= s[0] <= 0xfdff
            ||| 0xfe80 <= s[0] <= 0xfebf
        },
    }
}

/// An IPv4 address as the 32-bit number it stands for, first octet highest.
pub open spec fn v4_number(o: [u8; 4]) -> int {
    o[0] * 0x100_0000 + o[1] * 0x1_0000 + o[2] * 0x100 + o[3]
}

/// Whether `o` lies in the block of `size` addresses that starts at `net`,
/// as a CIDR network of that size does.
pub open spec fn in_v4_block(o: [u8; 4], net: [u8; 4], size: int) -> bool {
    v4_number(net) <= v4_number(o) < v4_number(net) + size
}

/// Whether `o` lies in one of the networks that are served: the private
/// networks 10.0.0.0/8, 172.16.0.0/12 and 192.168.0.0/16, the loopback
/// network 127.0.0.0/8 and the link-local network 169.254.0.0/16.
pub open spec fn in_served_v4_network(o: [u8; 4]) -> bool {
    ||| in_v4_block(o, [10, 0, 0, 0], 0x100_0000)
    ||| in_v4_block(o, [172, 16, 0, 0], 0x10_0000)
    ||| in_v4_block(o, [192, 168, 0, 0], 0x1_0000)
    ||| in_v4_block(o, [127, 0, 0, 0], 0x100_0000)
    ||| in_v4_block(o, [169, 254, 0, 0], 0x1_0000)
}

/// An IPv4 peer is served exactly when its address lies in one of the
/// private, loopback or link-local networks, whatever its other octets.
pub proof fn law_served_v4_peers_are_the_local_networks(o: [u8; 4])
    ensures
        lan_or_loopback(PeerAddress::V4(o)) <==> in_served_v4_network(o),
{
    let n = v4_number(o);
    assert(0 <= o[1] * 0x1_0000 + o[2] * 0x100 + o[3] < 0x100_0000);
    assert(0 <= o[2] * 0x100 + o[3] < 0x1_0000);
    assert(v4_number([10, 0, 0, 0]) == 10 * 0x100_0000);
    assert(v4_number([172, 16, 0, 0]) == 172 * 0x100_0000 + 16 * 0x1_0000);
    assert(v4_number([192, 168, 0, 0]) == 192 * 0x100_0000 + 168 * 0x1_0000);
    assert(v4_number([127, 0, 0, 0]) == 127 * 0x100_0000);
    assert(v4_number([169, 254, 0, 0]) == 169 * 0x100_0000 + 254 * 0x1_0000);
}

/// Whether requests from this peer are served.
pub fn is_lan_or_loopback(ip: &PeerAddress) -> (r: bool)
    ensures
        r == lan_or_loopback(*ip),
        *ip matches PeerAddress::V4(o) ==> (r <==> in_served_v4_network(o)),
{
    proof {
        match ip {
            PeerAddress::V4(o) => law_served_v4_peers_are_the_local_networks(*o),
            PeerAddress::V6(_) => {},
        }
    }
    match ip {
        PeerAddress::V4(o) => {
            o[0] == 10 || (o[0] == 172 && 16 <= o[1] && o[1] <= 31) || (o[0] == 192 && o[1] == 168)
                || o[0] == 127 || (o[0] == 169 && o[1] == 254)
        },
        PeerAddress::V6(s) => {
            (s[0] == 0 && s[1] == 0 && s[2] == 0 && s[3] == 0 && s[4] == 0 && s[5] == 0 && s[6] == 0
                && s[7] == 1) || (0xfc00 <= s[0] && s[0] <= 0xfdff) || (0xfe80 <= s[0] && s[0]
                <= 0xfebf)
        },
    }
}

/// How many unchanged polls pass between two keep-alive comments.
pub const KEEPALIVE_TICKS: u8 = 20;

/// The comment that keeps an idle event stream open.
pub const KEEPALIVE_FRAME: &'static str = ": keepalive\n\n";

/// What the event stream sends after a poll of the state.
pub enum StreamStep {
    /// A server-sent event carrying the new state.
    SendState(String),
    /// A keep-alive comment.
    SendKeepalive,
    Wait,
}

/// The server-sent event that carries `json`.
pub open spec fn state_frame(json: Seq<char>) -> Seq<char> {
    "event: state\ndata: "@ + json + "\n\n"@
}

/// The event stream's memory of what it last sent and how long it has been quiet.
pub struct EventStreamState {
    last_json: String,
    keepalive_ticks: u8,
}

impl EventStreamState {
    pub fn new() -> (r: Self)
        ensures
            r.last_sent() == Seq::<char>::empty(),
            r.quiet_ticks() == 0,
    {
        EventStreamState { last_json: String::new(), keepalive_ticks: 0 }
    }

    /// The state last sent.
    pub closed spec fn last_sent(&self) -> Seq<char> {
        self.last_json@
    }

    /// Polls since the last frame.
    pub closed spec fn quiet_ticks(&self) -> u8 {
        self.keepalive_ticks
    }

    /// Decides what to send after polling the state `json`: the state when it
    /// changed, a keep-alive after enough quiet polls, otherwise nothing.
    pub fn next_step(&mut self, json: String) -> (r: StreamStep)
        ensures
            json@ != old(self).last_sent() ==> {
                &&& r matches StreamStep::SendState(frame) && frame@ == state_frame(json@)
                &&& final(self).last_sent() == json@
                &&& final(self).quiet_ticks() == 0
            },
            json@ == old(self).last_sent() ==> {
                let ticks = if old(self).quiet_ticks() == u8::MAX {
                    u8::MAX
                } else {
                    (old(self).quiet_ticks() + 1) as u8
                };
                &&& final(self).last_sent() == old(self).last_sent()
                &&& ticks >= KEEPALIVE_TICKS ==> r is SendKeepalive && final(self).quiet_ticks() == 0
                &&& ticks < KEEPALIVE_TICKS ==> r is Wait && final(self).quiet_ticks() == ticks
            },
    {
        if json != self.last_json {
            let mut chars: Vec<char> = Vec::new();
            push_str(&mut chars, "event: state\ndata: ");
            push_str(&mut chars, json.as_str());
            push_str(&mut chars, "\n\n");
            proof {
                assert(chars@ =~= state_frame(json@));
            }
            let frame = string_from_chars(&chars);
            self.last_json = json;
            self.keepalive_ticks = 0;
            StreamStep::SendState(frame)
        } else {
            self.keepalive_ticks = if self.keepalive_ticks == u8::MAX {
                u8::MAX
            } else {
                self.keepalive_ticks + 1
            };
            if self.keepalive_ticks >= KEEPALIVE_TICKS {
                self.keepalive_ticks = 0;
                StreamStep::SendKeepalive
            } else {
                StreamStep::Wait
            }
        }
    }
}

/// The board as the remote control page sees it.
pub struct RemoteState {
    pub project_name: String,
    pub board_rows: u8,
    pub board_columns: u8,
    pub playhead_us: i64,
    pub playback_status: PlaybackStatus,
    pub recording_status: RecordingStatus,
    pub slots: Vec<Slot>,
    pub timeline_events: Vec<TimelineEvent>,
}

/// A copy of the board's state for the remote control page.
pub fn snapshot_state(
    slots: &Vec<Slot>,
    timeline: &TimelineState,
    playback: &PlaybackEngine,
    recording: &RecordingEngine,
    settings: &ProjectSettings,
    project_name: &String,
) -> (r: RemoteState)
    ensures
        r.project_name == *project_name,
        r.board_rows == settings.board_rows,
        r.board_columns == settings.board_columns,
        r.playhead_us == timeline.playhead_position_us,
        r.playback_status == playback@.status,
        r.recording_status == recording@.status,
        r.slots@ == slots@,
        r.timeline_events@ == timeline.events@,
{
    RemoteState {
        project_name: project_name.clone(),
        board_rows: settings.board_rows,
        board_columns: settings.board_columns,
        playhead_us: timeline.playhead_position_us,
        playback_status: playback.status(),
        recording_status: recording.status(),
        slots: slots.clone(),
        timeline_events: timeline.events.clone(),
    }
}

/// The most bytes of request head that are read before a request is refused.
pub const MAX_HEAD_BYTES: usize = 65_536;

/// What reading a request's head does after a read.
pub enum HeadStep {
    /// The head ends at this index of the buffer.
    Complete(usize),
    /// The head has not ended yet: read on.
    ReadMore,
    /// The request is refused, for this reason.
    Failed(String),
}

/// Decides how reading a request's head goes on after a read of
/// `last_read` bytes left `buffer`: a closed connection before the head
/// ended is an invalid request, a blank line ends the head, and more than
/// `MAX_HEAD_BYTES` without one is refused.
pub fn head_read_step(buffer: &[u8], last_read: usize) -> (r: HeadStep)
    ensures
        last_read == 0 ==> (r matches HeadStep::Failed(m) && m@ == "invalid request"@),
        last_read != 0 ==> match r {
            HeadStep::Complete(i) => header_end_at(buffer@, i as int) && forall|k: int|
                0 <= k < i ==> !header_end_at(buffer@, k),
            HeadStep::ReadMore => buffer@.len() <= MAX_HEAD_BYTES && forall|k: int|
                0 <= k < buffer@.len() ==> !header_end_at(buffer@, k),
            HeadStep::Failed(m) => m@ == "request headers too large"@ && buffer@.len()
                > MAX_HEAD_BYTES && forall|k: int|
                0 <= k < buffer@.len() ==> !header_end_at(buffer@, k),
        },
{
    if last_read == 0 {
        return HeadStep::Failed("invalid request".to_string());
    }
    match find_header_end(buffer) {
        Some(i) => HeadStep::Complete(i),
        None => if buffer.len() > MAX_HEAD_BYTES {
            HeadStep::Failed("request headers too large".to_string())
        } else {
            HeadStep::ReadMore
        },
    }
}

} // verus!
