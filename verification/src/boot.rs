//! The page that is shown while plugins load.

use vstd::prelude::*;

verus! {

/// A script for the frame that shows the page. Should the page still say that
/// plugins are loading after eight seconds, it is reloaded, once: a mark in the
/// session storage keeps it from being reloaded again. Outside a frame the
/// script does nothing.
pub const PLUGIN_BOOT_RELOAD_JS: &'static str = r#"(function () {
  if (window.__dsh_plugin_boot_reload__) return;
  window.__dsh_plugin_boot_reload__ = true;
  if (window === window.top) return;

  var FLAG = '__dsh_plugin_boot_reloaded__';
  try {
    if (sessionStorage.getItem(FLAG) === '1') return;
  } catch (_) {}

  function isSplash() {
    var text = (document.body && (document.body.innerText || document.body.textContent)) || '';
    return text.indexOf('Loading plugins') !== -1;
  }

  function tick() {
    if (!isSplash()) return;
    try { sessionStorage.setItem(FLAG, '1'); } catch (_) {}
    location.reload();
  }

  setTimeout(tick, 8000);
})();"#;

/// The script is made of these parts, in this order: it does nothing a second time
/// on one page, nothing outside a frame, and nothing once the session is marked;
/// after eight seconds, where the page still says that plugins are loading, it
/// marks the session and then reloads the page.
pub proof fn law_script_reloads_the_page_once()
    ensures
        PLUGIN_BOOT_RELOAD_JS@ == "(function () {\n  if (window.__dsh_plugin_boot_reload__) return;\n  window.__dsh_plugin_boot_reload__ = true;\n"@
            + "  if (window === window.top) return;\n"@
            + "\n  var FLAG = '__dsh_plugin_boot_reloaded__';\n  try {\n    if (sessionStorage.getItem(FLAG) === '1') return;\n  } catch (_) {}\n"@
            + "\n  function isSplash() {\n    var text = (document.body && (document.body.innerText || document.body.textContent)) || '';\n    return text.indexOf('Loading plugins') !== -1;\n  }\n"@
            + "\n  function tick() {\n    if (!isSplash()) return;\n"@
            + "    try { sessionStorage.setItem(FLAG, '1'); } catch (_) {}\n"@
            + "    location.reload();\n  }\n"@
            + "\n  setTimeout(tick, 8000);\n})();"@,
{
    reveal_strlit(
        r#"(function () {
  if (window.__dsh_plugin_boot_reload__) return;
  window.__dsh_plugin_boot_reload__ = true;
  if (window === window.top) return;

  var FLAG = '__dsh_plugin_boot_reloaded__';
  try {
    if (sessionStorage.getItem(FLAG) === '1') return;
  } catch (_) {}

  function isSplash() {
    var text = (document.body && (document.body.innerText || document.body.textContent)) || '';
    return text.indexOf('Loading plugins') !== -1;
  }

  function tick() {
    if (!isSplash()) return;
    try { sessionStorage.setItem(FLAG, '1'); } catch (_) {}
    location.reload();
  }

  setTimeout(tick, 8000);
})();"#,
    );
    reveal_strlit("(function () {\n  if (window.__dsh_plugin_boot_reload__) return;\n  window.__dsh_plugin_boot_reload__ = true;\n");
    reveal_strlit("  if (window === window.top) return;\n");
    reveal_strlit("\n  var FLAG = '__dsh_plugin_boot_reloaded__';\n  try {\n    if (sessionStorage.getItem(FLAG) === '1') return;\n  } catch (_) {}\n");
    reveal_strlit("\n  function isSplash() {\n    var text = (document.body && (document.body.innerText || document.body.textContent)) || '';\n    return text.indexOf('Loading plugins') !== -1;\n  }\n");
    reveal_strlit("\n  function tick() {\n    if (!isSplash()) return;\n");
    reveal_strlit("    try { sessionStorage.setItem(FLAG, '1'); } catch (_) {}\n");
    reveal_strlit("    location.reload();\n  }\n");
    reveal_strlit("\n  setTimeout(tick, 8000);\n})();");
}

} // verus!
