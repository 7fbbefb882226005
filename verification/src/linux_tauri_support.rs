//! What the desktop shell needs from a Linux system, and the message that
//! explains what is missing. Probing the system (environment, `ldconfig`,
//! library directories) happens outside the library.
use vstd::prelude::*;

use crate::text::{contains_text, push_all, same_text, text_contains};

verus! {

pub const WEBKIT_LIB_4_1: &'static str = "libwebkit2gtk-4.1.so.0";

pub const WEBKIT_LIB_4_0: &'static str = "libwebkit2gtk-4.0.so.37";

pub const GTK3_LIB: &'static str = "libgtk-3.so.0";

/// The WebKitGTK runtime libraries, either of which will do.
pub const WEBKIT_LIBS: [&'static str; 2] = [WEBKIT_LIB_4_1, WEBKIT_LIB_4_0];

pub const MISSING_DISPLAY: &'static str = "display-session";

pub const MISSING_WEBKIT: &'static str = "webkit2gtk";

pub const MISSING_GTK3: &'static str = "gtk3";

/// The `ldconfig -p` listing names a WebKitGTK runtime.
pub open spec fn cache_has_webkit(cache: Seq<char>) -> bool {
    contains_text(cache, WEBKIT_LIB_4_1@) || contains_text(cache, WEBKIT_LIB_4_0@)
}

/// What is missing, in this order: a display session (neither `DISPLAY` nor
/// `WAYLAND_DISPLAY` is set), then, when a library listing was read, WebKitGTK
/// and GTK3 when the listing lacks them.
pub open spec fn missing_prerequisites(has_session: bool, cache: Option<Seq<char>>) -> Seq<Seq<char>> {
    let session: Seq<Seq<char>> = if has_session { seq![] } else { seq![MISSING_DISPLAY@] };
    let libs: Seq<Seq<char>> = match cache {
        Some(c) => (if cache_has_webkit(c) { seq![] } else { seq![MISSING_WEBKIT@] }) + (if contains_text(
            c,
            GTK3_LIB@,
        ) {
            seq![]
        } else {
            seq![MISSING_GTK3@]
        }),
        None => seq![],
    };
    session + libs
}

/// The characters of each string.
pub open spec fn strs(v: Seq<&str>) -> Seq<Seq<char>> {
    v.map_values(|s: &str| s@)
}

pub open spec fn opt_str(o: Option<&str>) -> Option<Seq<char>> {
    match o {
        Some(s) => Some(s@),
        None => None,
    }
}

/// Checks the display session and, when given, the `ldconfig -p` listing.
/// `Ok` when nothing is missing, else the missing items in order.
pub fn validate_linux_tauri_prerequisites(
    display: Option<&str>,
    wayland_display: Option<&str>,
    ldconfig_cache: Option<&str>,
) -> (res: Result<(), Vec<&'static str>>)
    ensures
        ({
            let missing = missing_prerequisites(display is Some || wayland_display is Some, opt_str(ldconfig_cache));
            match res {
                Ok(()) => missing.len() == 0,
                Err(v) => strs(v@) == missing && missing.len() > 0,
            }
        }),
{
    let mut missing: Vec<&'static str> = Vec::new();
    if display.is_none() && wayland_display.is_none() {
        missing.push(MISSING_DISPLAY);
    }
    let ghost session = strs(missing@);
    match ldconfig_cache {
        Some(cache) => {
            if !(text_contains(cache, WEBKIT_LIB_4_1) || text_contains(cache, WEBKIT_LIB_4_0)) {
                missing.push(MISSING_WEBKIT);
            }
            let ghost with_webkit = strs(missing@);
            if !text_contains(cache, GTK3_LIB) {
                missing.push(MISSING_GTK3);
            }
            assert(strs(missing@) =~= missing_prerequisites(
                display is Some || wayland_display is Some,
                opt_str(ldconfig_cache),
            ));
        },
        None => {
            assert(strs(missing@) =~= missing_prerequisites(
                display is Some || wayland_display is Some,
                opt_str(ldconfig_cache),
            ));
        },
    }
    if missing.len() == 0 {
        Ok(())
    } else {
        Err(missing)
    }
}

pub const REASON_DISPLAY: &'static str = "No X11/Wayland session detected (DISPLAY/WAYLAND_DISPLAY are unset)";

pub const REASON_WEBKIT: &'static str = "WebKitGTK runtime libraries were not detected";

pub const REASON_GTK3: &'static str = "GTK3 runtime libraries were not detected";

pub const MESSAGE_HEAD: &'static str = "Linux desktop prerequisites are missing:\n- ";

pub const REASON_SEPARATOR: &'static str = "\n- ";

pub const MESSAGE_TAIL: &'static str = "\n\nInstall/verify dependencies:\n- Debian-family: sudo apt install libwebkit2gtk-4.1-0 libgtk-3-0\n- Fedora-family: sudo dnf install webkit2gtk4.1 gtk3\n- Arch-family: sudo pacman -S webkit2gtk gtk3\n\nThen re-run: cargo run --features tauri -- <image-dir>\nIf you are in a headless shell, start an X11 or Wayland session first.\nSee README: Linux Tauri Desktop Support.";

/// The reasons for the missing items, in a fixed order.
pub open spec fn reasons_for(missing: Seq<Seq<char>>) -> Seq<Seq<char>> {
    (if missing.contains(MISSING_DISPLAY@) { seq![REASON_DISPLAY@] } else { seq![] }) + (if missing.contains(
        MISSING_WEBKIT@,
    ) {
        seq![REASON_WEBKIT@]
    } else {
        seq![]
    }) + (if missing.contains(MISSING_GTK3@) {
        seq![REASON_GTK3@]
    } else {
        seq![]
    })
}

/// The strings of `list` with `sep` between each two.
pub open spec fn joined(list: Seq<Seq<char>>, sep: Seq<char>) -> Seq<char>
    decreases list.len(),
{
    if list.len() == 0 {
        seq![]
    } else if list.len() == 1 {
        list[0]
    } else {
        joined(list.drop_last(), sep) + sep + list.last()
    }
}

/// The message that explains the missing items and how to install them.
pub open spec fn prereq_error_message(missing: Seq<Seq<char>>) -> Seq<char> {
    MESSAGE_HEAD@ + joined(reasons_for(missing), REASON_SEPARATOR@) + MESSAGE_TAIL@
}

/// Whether `items` holds `item`.
fn holds(items: &[&str], item: &str) -> (res: bool)
    ensures
        res == strs(items@).contains(item@),
{
    let mut i: usize = 0;
    while i < items.len()
        invariant
            i <= items.len(),
            forall|k: int| 0 <= k < i ==> items@[k]@ != item@,
        decreases items.len() - i,
    {
        if same_text(items[i], item) {
            assert(strs(items@)[i as int] == item@);
            return true;
        }
        i = i + 1;
    }
    assert forall|k: int| 0 <= k < strs(items@).len() implies strs(items@)[k] != item@ by {
        assert(strs(items@)[k] == items@[k]@);
    }
    false
}

/// The message for the missing items (`"display-session"`, `"webkit2gtk"`,
/// `"gtk3"`), with the install commands of each distribution family.
pub fn linux_tauri_prereq_error(missing: &[&str]) -> (message: String)
    ensures
        message@ == prereq_error_message(strs(missing@)),
{
    let mut reasons: Vec<&'static str> = Vec::new();
    if holds(missing, MISSING_DISPLAY) {
        reasons.push(REASON_DISPLAY);
    }
    if holds(missing, MISSING_WEBKIT) {
        reasons.push(REASON_WEBKIT);
    }
    if holds(missing, MISSING_GTK3) {
        reasons.push(REASON_GTK3);
    }
    assert(strs(reasons@) =~= reasons_for(strs(missing@)));
    let mut message = String::from_str(MESSAGE_HEAD);
    let ghost head = message@;
    let mut i: usize = 0;
    while i < reasons.len()
        invariant
            i <= reasons.len(),
            head == MESSAGE_HEAD@,
            message@ == head + joined(strs(reasons@).take(i as int), REASON_SEPARATOR@),
        decreases reasons.len() - i,
    {
        let ghost before = message@;
        if i > 0 {
            push_all(&mut message, REASON_SEPARATOR);
        }
        push_all(&mut message, reasons[i]);
        proof {
            let list = strs(reasons@);
            assert(list.take(i + 1).drop_last() =~= list.take(i as int));
            assert(list.take(i + 1).last() == reasons@[i as int]@);
            if i == 0 {
                assert(list.take(1).len() == 1);
                assert(joined(list.take(0), REASON_SEPARATOR@) =~= seq![]);
                assert(message@ =~= head + joined(list.take(1), REASON_SEPARATOR@));
            } else {
                assert(message@ =~= head + joined(list.take(i + 1), REASON_SEPARATOR@));
            }
        }
        i = i + 1;
    }
    assert(strs(reasons@).take(reasons.len() as int) =~= strs(reasons@));
    push_all(&mut message, MESSAGE_TAIL);
    message
}

/// What was learned of the system: the display variables, the `ldconfig -p`
/// listing when it could be read, and whether the libraries were found in the
/// usual directories (consulted only without a listing).
#[derive(Clone, Debug)]
pub struct PrerequisiteProbe {
    pub display: Option<String>,
    pub wayland_display: Option<String>,
    pub ldconfig_cache: Option<String>,
    pub webkit_in_lib_dirs: bool,
    pub gtk3_in_lib_dirs: bool,
}

pub open spec fn opt_string(o: Option<String>) -> Option<Seq<char>> {
    match o {
        Some(s) => Some(s@),
        None => None,
    }
}

/// What is missing after the probe: the checks of the listing, or, without
/// one, the library directories.
pub open spec fn probe_missing(probe: PrerequisiteProbe) -> Seq<Seq<char>> {
    let missing = missing_prerequisites(
        probe.display is Some || probe.wayland_display is Some,
        opt_string(probe.ldconfig_cache),
    );
    if probe.ldconfig_cache is None {
        let m1 = if !probe.webkit_in_lib_dirs && !missing.contains(MISSING_WEBKIT@) {
            missing.push(MISSING_WEBKIT@)
        } else {
            missing
        };
        if !probe.gtk3_in_lib_dirs && !m1.contains(MISSING_GTK3@) {
            m1.push(MISSING_GTK3@)
        } else {
            m1
        }
    } else {
        missing
    }
}

/// `Ok` when the desktop shell can start, else the message that explains
/// what is missing.
pub fn check_linux_tauri_prerequisites(probe: &PrerequisiteProbe) -> (res: Result<(), String>)
    ensures
        ({
            let missing = probe_missing(*probe);
            match res {
                Ok(()) => missing.len() == 0,
                Err(message) => missing.len() > 0 && message@ == prereq_error_message(missing),
            }
        }),
{
    let display = match &probe.display {
        Some(s) => Some(s.as_str()),
        None => None,
    };
    let wayland = match &probe.wayland_display {
        Some(s) => Some(s.as_str()),
        None => None,
    };
    let cache = match &probe.ldconfig_cache {
        Some(s) => Some(s.as_str()),
        None => None,
    };
    let mut missing: Vec<&'static str> = match validate_linux_tauri_prerequisites(display, wayland, cache) {
        Ok(()) => Vec::new(),
        Err(v) => v,
    };
    assert(strs(missing@) =~= missing_prerequisites(
        probe.display is Some || probe.wayland_display is Some,
        opt_string(probe.ldconfig_cache),
    ));
    let ghost m0 = strs(missing@);
    if cache.is_none() {
        if !probe.webkit_in_lib_dirs && !holds(missing.as_slice(), MISSING_WEBKIT) {
            missing.push(MISSING_WEBKIT);
            assert(strs(missing@) =~= m0.push(MISSING_WEBKIT@));
        }
        let ghost m1 = strs(missing@);
        assert(m1 == if !probe.webkit_in_lib_dirs && !m0.contains(MISSING_WEBKIT@) {
            m0.push(MISSING_WEBKIT@)
        } else {
            m0
        });
        if !probe.gtk3_in_lib_dirs && !holds(missing.as_slice(), MISSING_GTK3) {
            missing.push(MISSING_GTK3);
            assert(strs(missing@) =~= m1.push(MISSING_GTK3@));
        }
    }
    assert(strs(missing@) =~= probe_missing(*probe));
    if missing.len() == 0 {
        Ok(())
    } else {
        Err(linux_tauri_prereq_error(missing.as_slice()))
    }
}

} // verus!
