//! Test-only DOM bridge: when the app is booted with
//! `OPENKITE_TEST_PORT=<port>` it serves a tiny localhost endpoint that runs
//! DOM operations inside the live webview. This module holds the decision
//! of whether the bridge is on, and the JavaScript dispatcher the webview
//! runs; the listener and the webview plumbing are the host's.

use vstd::prelude::*;

use crate::text::{parse_unsigned, parsed_unsigned};

verus! {

/// The JS dispatcher installed once in the webview. It receives one op
/// per `dioxus.recv()`, runs it against the real DOM, and replies via
/// `dioxus.send`. Every result is JSON-serializable. The body returns the
/// never-resolving request loop, so the eval stays registered for the life
/// of the process.
pub const DISPATCHER_JS: &'static str = r#"
async function __openkite_bridge_loop(dioxus) {
  while (true) {
    const raw = await dioxus.recv();
    const op = (typeof raw === 'string') ? JSON.parse(raw) : raw;
    try {
      const result = await __openkite_bridge_run(op);
      dioxus.send(JSON.stringify({ ok: true, result }));
    } catch (err) {
      dioxus.send(JSON.stringify({ ok: false, error: String(err) }));
    }
  }
}

async function __openkite_bridge_run(op) {
  const el = () => document.querySelector(op.selector);
  switch (op.op) {
    case 'count':
      return document.querySelectorAll(op.selector).length;
    case 'text':
      return (el()?.textContent ?? '').trim();
    case 'visible':
      return el() !== null && el().offsetParent !== null;
    case 'class':
      return el()?.className ?? '';
    case 'click': {
      const target = el();
      if (!target) return false;
      target.click();
      return true;
    }
    case 'focus': {
      const target = el();
      if (!target) return false;
      target.focus();
      return true;
    }
    case 'type': {
      const target = el();
      if (!target) return false;
      target.focus();
      const setter = Object.getOwnPropertyDescriptor(window.HTMLInputElement.prototype, 'value')?.set;
      const value = op.text ?? '';
      if (setter) setter.call(target, value); else target.value = value;
      target.dispatchEvent(new Event('input', { bubbles: true }));
      target.dispatchEvent(new Event('change', { bubbles: true }));
      return true;
    }
    case 'key': {
      const init = { key: op.key ?? '', bubbles: true, cancelable: true };
      if (op.ctrl) init.ctrlKey = true;
      if (op.meta) init.metaKey = true;
      document.dispatchEvent(new KeyboardEvent('keydown', init));
      return true;
    }
    default:
      throw new Error('unknown op: ' + op.op);
  }
}

// Start the request pump AND keep this eval alive: the wrapper resolves
// the async body's promise when it settles, then closes the query
// (nulling window.__msg_queues[id], which Rust's eval.send needs). So we
// return the never-resolving loop promise — the body never settles, the
// query stays registered for the life of the process.
return __openkite_bridge_loop(dioxus);
"#;

/// The port a `OPENKITE_TEST_PORT` value asks for: its trimmed text read
/// as a `u16` (decimal digits after an optional `+`), with `0` meaning
/// disabled.
pub open spec fn requested_port(raw: Seq<char>) -> Option<u16> {
    match parsed_unsigned(raw, 65535) {
        Some(v) if v > 0 => Some(v as u16),
        _ => None,
    }
}

/// The port an `OPENKITE_TEST_PORT` value asks for, if it is a valid
/// non-zero `u16`.
pub fn parse_port(raw: &str) -> (r: Option<u16>)
    ensures
        r == requested_port(raw@),
{
    match parse_unsigned(raw, 65535) {
        Some(v) => {
            if v > 0 {
                Some(v as u16)
            } else {
                None
            }
        },
        None => None,
    }
}

/// Whether the bridge is on for an `OPENKITE_TEST_PORT` value (`None` when
/// the variable is unset).
pub fn enabled_for(raw: Option<&str>) -> (r: bool)
    ensures
        r == (raw matches Some(v) && requested_port(v@) is Some),
{
    match raw {
        Some(v) => parse_port(v).is_some(),
        None => false,
    }
}

} // verus!
