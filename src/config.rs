//! Settings read from the configuration file. Tables keyed by name are held
//! as lists of (name, value) pairs with distinct names.
use vstd::prelude::*;

verus! {

/// A colour theme as written in the configuration: `#rrggbb` strings.
#[derive(Debug, Default)]
pub struct ConfigTheme {
    pub background: String,
    pub foreground: String,
    pub yellow: String,
    pub blue: String,
    pub mauve: String,
    pub green: String,
    pub red: String,
    pub peach: String,
    pub teal: String,
}

/// Glyph overrides; an absent entry keeps the default glyph.
#[derive(Debug, Default)]
pub struct ConfigSymbols {
    pub calendar: Option<String>,
    pub clock: Option<String>,
    pub help: Option<String>,
    pub left_arrow: Option<String>,
    pub right_arrow: Option<String>,
    pub up_arrow: Option<String>,
    pub down_arrow: Option<String>,
}

/// Per-calendar icon and colour overrides.
#[derive(Debug, Default)]
pub struct CalendarConfig {
    pub icon: Option<String>,
    pub color: Option<String>,
}

/// The whole configuration file.
#[derive(Debug, Default)]
pub struct Settings {
    pub client_id: String,
    pub enable_debug_log: Option<bool>,
    pub refresh_interval_minutes: Option<u64>,
    pub theme: Option<String>,
    pub font: Option<String>,
    pub use_nerd_font: Option<bool>,
    pub custom_themes: Option<Vec<(String, ConfigTheme)>>,
    pub symbols: Option<ConfigSymbols>,
    pub custom_fonts: Option<Vec<(String, ConfigSymbols)>>,
    pub enable_notifications: Option<bool>,
    pub notification_minutes_before: Option<u64>,
    pub calendar_overrides: Option<Vec<(String, CalendarConfig)>>,
}

/// Index of the first entry named `key`, if any.
pub open spec fn first_key_index<V>(entries: Seq<(String, V)>, key: Seq<char>) -> Option<int> {
    if exists|i: int| 0 <= i < entries.len() && (#[trigger] entries[i]).0@ == key {
        Some(
            choose|i: int|
                0 <= i < entries.len() && entries[i].0@ == key && forall|j: int|
                    0 <= j < i ==> (#[trigger] entries[j]).0@ != key,
        )
    } else {
        None
    }
}

/// Looks up the entry named `key`.
pub fn find_entry<V>(entries: &Vec<(String, V)>, key: &str) -> (r: Option<usize>)
    ensures
        r is Some ==> {
            &&& r->0 < entries@.len()
            &&& entries@[r->0 as int].0@ == key@
            &&& forall|j: int| 0 <= j < r->0 ==> (#[trigger] entries@[j]).0@ != key@
        },
        r is None ==> forall|j: int| 0 <= j < entries@.len() ==> (#[trigger] entries@[j]).0@ != key@,
        r is Some ==> first_key_index(entries@, key@) == Some(r->0 as int),
        r is None ==> first_key_index(entries@, key@) is None,
{
    let mut i: usize = 0;
    while i < entries.len()
        invariant
            i <= entries@.len(),
            forall|j: int| 0 <= j < i ==> (#[trigger] entries@[j]).0@ != key@,
        decreases entries@.len() - i,
    {
        if str_eq(entries[i].0.as_str(), key) {
            proof {
                let c = choose|k: int|
                    0 <= k < entries@.len() && entries@[k].0@ == key@ && forall|j: int|
                        0 <= j < k ==> (#[trigger] entries@[j]).0@ != key@;
                assert(0 <= i < entries@.len() && entries@[i as int].0@ == key@ && forall|j: int|
                    0 <= j < i ==> (#[trigger] entries@[j]).0@ != key@);
                if c < i {
                } else if c > i {
                    assert(entries@[i as int].0@ != key@);
                }
            }
            return Some(i);
        }
        i = i + 1;
    }
    None
}

/// Character-wise equality of two texts.
pub fn str_eq(a: &str, b: &str) -> (r: bool)
    ensures
        r == (a@ == b@),
{
    let n = a.unicode_len();
    if n != b.unicode_len() {
        return false;
    }
    let mut i: usize = 0;
    while i < n
        invariant
            n == a@.len() == b@.len(),
            i <= n,
            a@.subrange(0, i as int) == b@.subrange(0, i as int),
        decreases n - i,
    {
        if a.get_char(i) != b.get_char(i) {
            return false;
        }
        i = i + 1;
        proof {
            assert(a@.subrange(0, i as int) =~= a@.subrange(0, i - 1).push(a@[i - 1]));
            assert(b@.subrange(0, i as int) =~= b@.subrange(0, i - 1).push(b@[i - 1]));
        }
    }
    proof {
        assert(a@ =~= a@.subrange(0, n as int));
        assert(b@ =~= b@.subrange(0, n as int));
    }
    true
}

} // verus!
