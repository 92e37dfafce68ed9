//! Profile and app-state bookkeeping.
//!
//! Layout under the store root: `profiles/<id>.toml`, one network profile
//! each (treated as opaque text; a display name is derived from a few
//! well-known fields), and `state.json` with the last-running set and the GUI
//! settings. File access belongs to the caller; this module names the paths,
//! validates ids, derives names and orders the listing.

use vstd::prelude::*;
use crate::paths::{join, opt_chars, path_join};
use crate::text::{append_str, chars_end_with, chars_of, is_blank, skip_ws, slice_chars, string_of};

verus! {

/// Metadata for the network list (no TOML body).
#[derive(Debug, Clone, PartialEq, Eq)]
pub struct ProfileMeta {
    pub id: String,
    pub name: String,
}

/// A full profile including its TOML body.
#[derive(Debug, Clone, PartialEq, Eq)]
pub struct ProfileRecord {
    pub id: String,
    pub name: String,
    pub toml: String,
}

/// The default of `auto_restart` when the persisted state omits it.
pub fn default_true() -> (b: bool)
    ensures
        b,
{
    true
}

/// Persisted GUI state: the last-running set, autostart, auto-restart.
#[derive(Debug, Clone, PartialEq, Eq)]
pub struct AppState {
    /// Profile ids that were running at last persist.
    pub running: Vec<String>,
    /// Login-item autostart toggle.
    pub autostart: bool,
    /// Auto-restart the core after an unexpected `core_exited`.
    pub auto_restart: bool,
}

impl Default for AppState {
    fn default() -> (s: AppState)
        ensures
            s.running@.len() == 0,
            !s.autostart,
            s.auto_restart,
    {
        AppState { running: Vec::new(), autostart: false, auto_restart: true }
    }
}

/// Where profiles and state live.
#[derive(Debug, Clone, PartialEq, Eq)]
pub struct ProfileStore {
    pub root: String,
}

/// Position `j` of `id` holds `/`, a backslash or NUL, or starts a `..`.
pub open spec fn bad_at(id: Seq<char>, j: int) -> bool {
    ||| id[j] == '/'
    ||| id[j] == '\\'
    ||| id[j] == '\0'
    ||| j + 1 < id.len() && id[j] == '.' && id[j + 1] == '.'
}

/// `id` could escape the profiles directory or collide with the file system:
/// empty, or holding `/`, a backslash, `..` or NUL.
pub open spec fn bad_id(id: Seq<char>) -> bool {
    id.len() == 0 || exists|j: int| 0 <= j < id.len() && #[trigger] bad_at(id, j)
}

/// The `Debug` rendering of a string (quoted, with escapes).
pub uninterp spec fn str_debug(s: Seq<char>) -> Seq<char>;

/// `format!("{:?}", s)` for a string slice. Claimed: the result is the named
/// `Debug` rendering of `s`.
#[verifier::external_body]
fn debug_str(s: &str) -> (r: String)
    ensures
        r@ == str_debug(s@),
{
    format!("{:?}", s)
}

/// Reject ids that could escape the profiles directory or collide with the
/// file system.
pub fn validate_id(id: &str) -> (r: Result<(), String>)
    ensures
        crate::supervisor::config::unit_result_view(r) == if bad_id(id@) {
            Err("invalid profile id: "@ + str_debug(id@))
        } else {
            Ok(())
        },
{
    let v = chars_of(id);
    let mut bad = v.len() == 0;
    let mut i: usize = 0;
    while i < v.len()
        invariant
            i <= v.len(),
            v@ == id@,
            bad == (v.len() == 0 || exists|j: int| 0 <= j < i && #[trigger] bad_at(v@, j)),
        decreases v.len() - i,
    {
        let c = v[i];
        if c == '/' || c == '\\' || c == '\0' || (i + 1 < v.len() && c == '.' && v[i + 1] == '.') {
            bad = true;
            assert(bad_at(v@, i as int));
        }
        i += 1;
    }
    proof {
        if bad {
            assert(bad_id(id@));
        }
        if bad_id(id@) && id@.len() > 0 {
            let j = choose|j: int| 0 <= j < id@.len() && #[trigger] bad_at(id@, j);
            assert(bad_at(v@, j));
        }
    }
    if bad {
        let mut out: Vec<char> = Vec::new();
        append_str(&mut out, "invalid profile id: ");
        let d = debug_str(id);
        append_str(&mut out, d.as_str());
        return Err(string_of(&out));
    }
    Ok(())
}

impl ProfileStore {
    /// A store rooted at `root`.
    pub fn new(root: &str) -> (s: ProfileStore)
        ensures
            s.root@ == root@,
    {
        ProfileStore { root: root.to_owned() }
    }

    /// `<root>/profiles`.
    pub fn profiles_dir(&self) -> (p: String)
        ensures
            p@ == path_join(self.root@, "profiles"@),
    {
        join(self.root.as_str(), "profiles")
    }

    /// `<root>/state.json`.
    pub fn state_path(&self) -> (p: String)
        ensures
            p@ == path_join(self.root@, "state.json"@),
    {
        join(self.root.as_str(), "state.json")
    }

    /// `<root>/state.json.tmp`, written then renamed over `state.json`.
    pub fn state_tmp_path(&self) -> (p: String)
        ensures
            p@ == path_join(self.root@, "state.json.tmp"@),
    {
        join(self.root.as_str(), "state.json.tmp")
    }

    /// `<root>/profiles/<id>.toml` for a valid id.
    pub fn profile_path(&self, id: &str) -> (r: Result<String, String>)
        ensures
            match r {
                Ok(p) => !bad_id(id@) && p@ == path_join(path_join(self.root@, "profiles"@), id@ + ".toml"@),
                Err(e) => bad_id(id@) && e@ == "invalid profile id: "@ + str_debug(id@),
            },
    {
        match validate_id(id) {
            Err(e) => Err(e),
            Ok(()) => {
                let dir = self.profiles_dir();
                let mut f: Vec<char> = Vec::new();
                append_str(&mut f, id);
                append_str(&mut f, ".toml");
                let file = string_of(&f);
                Ok(join(dir.as_str(), file.as_str()))
            },
        }
    }
}

/// The profile id a directory entry names: the stem of `<stem>.toml` with a
/// non-empty stem (what `Path::extension` and `Path::file_stem` give for a
/// `toml` extension).
pub open spec fn profile_file_id_of(name: Seq<char>) -> Option<Seq<char>> {
    if name.len() > 5 && crate::text::has_suffix(name, ".toml"@) {
        Some(name.take(name.len() - 5))
    } else {
        None
    }
}

/// The profile id for a file name in the profiles directory, if it is one.
pub fn profile_file_id(name: &str) -> (r: Option<String>)
    ensures
        opt_chars(r) == profile_file_id_of(name@),
{
    let v = chars_of(name);
    let ext = chars_of(".toml");
    if v.len() > 5 && chars_end_with(&v, &ext) {
        let stem = slice_chars(&v, 0, v.len() - 5);
        assert(stem@ =~= name@.take(name@.len() - 5));
        Some(string_of(&stem))
    } else {
        None
    }
}

/// The string value at `key` (inside `[table]` when given) of the TOML
/// document `text`; `None` when the text is not TOML or the value is absent or
/// not a string.
pub uninterp spec fn toml_str_at(text: Seq<char>, table: Option<Seq<char>>, key: Seq<char>) -> Option<Seq<char>>;

/// Parse `text` as a `toml::Value` and read the string at `key` (inside
/// `table` when given). Claimed: the result is the named lookup.
#[verifier::external_body]
fn toml_lookup_str(text: &str, table: Option<&str>, key: &str) -> (r: Option<String>)
    ensures
        opt_chars(r) == toml_str_at(
            text@,
            match table {
                Some(t) => Some(t@),
                None => None,
            },
            key@,
        ),
{
    let value = text.parse::<toml::Value>().ok()?;
    let scope = match table {
        Some(t) => value.get(t)?,
        None => &value,
    };
    scope.get(key).and_then(|v| v.as_str()).map(|s| s.to_string())
}

/// A value that is present and not blank.
pub open spec fn usable(o: Option<Seq<char>>) -> bool {
    o matches Some(s) && !is_blank(s)
}

/// The display name: `instance_name`, then `[network_identity].network_name`,
/// then `hostname`, the first one present and not blank, else the id.
pub open spec fn display_name(id: Seq<char>, text: Seq<char>) -> Seq<char> {
    let inst = toml_str_at(text, None, "instance_name"@);
    let net = toml_str_at(text, Some("network_identity"@), "network_name"@);
    let host = toml_str_at(text, None, "hostname"@);
    if usable(inst) {
        inst.unwrap()
    } else if usable(net) {
        net.unwrap()
    } else if usable(host) {
        host.unwrap()
    } else {
        id
    }
}

fn not_blank(s: &String) -> (b: bool)
    ensures
        b == !is_blank(s@),
{
    let v = chars_of(s.as_str());
    let i = skip_ws(&v, 0);
    if i < v.len() {
        assert(!crate::text::is_ws(s@[i as int]));
    }
    i < v.len()
}

/// Derive a human-readable profile name from its TOML.
pub fn derive_name(id: &str, toml_text: &str) -> (name: String)
    ensures
        name@ == display_name(id@, toml_text@),
{
    let inst = toml_lookup_str(toml_text, None, "instance_name");
    if let Some(s) = &inst {
        if not_blank(s) {
            return s.clone();
        }
    }
    let net = toml_lookup_str(toml_text, Some("network_identity"), "network_name");
    if let Some(s) = &net {
        if not_blank(s) {
            return s.clone();
        }
    }
    let host = toml_lookup_str(toml_text, None, "hostname");
    if let Some(s) = &host {
        if not_blank(s) {
            return s.clone();
        }
    }
    id.to_owned()
}

/// The metadata for a profile file's id and contents.
pub fn profile_meta(id: &str, toml_text: &str) -> (m: ProfileMeta)
    ensures
        m.id@ == id@,
        m.name@ == display_name(id@, toml_text@),
{
    ProfileMeta { id: id.to_owned(), name: derive_name(id, toml_text) }
}

/// The record for a profile file's id and contents.
pub fn profile_record(id: &str, toml_text: String) -> (r: ProfileRecord)
    ensures
        r.id@ == id@,
        r.name@ == display_name(id@, toml_text@),
        r.toml == toml_text,
{
    let name = derive_name(id, toml_text.as_str());
    ProfileRecord { id: id.to_owned(), name, toml: toml_text }
}


/// Lexicographic order on characters by code point, a proper prefix first:
/// the order of `String`'s `Ord` (UTF-8 preserves code point order).
pub open spec fn chars_lt(a: Seq<char>, b: Seq<char>) -> bool
    decreases a.len(),
{
    if b.len() == 0 {
        false
    } else if a.len() == 0 {
        true
    } else if (a[0] as int) < (b[0] as int) {
        true
    } else if a[0] == b[0] {
        chars_lt(a.drop_first(), b.drop_first())
    } else {
        false
    }
}

proof fn lemma_lt_trans(a: Seq<char>, b: Seq<char>, c: Seq<char>)
    requires
        chars_lt(a, b),
        chars_lt(b, c),
    ensures
        chars_lt(a, c),
    decreases a.len(),
{
    if a.len() > 0 && b.len() > 0 && c.len() > 0 && a[0] == b[0] && b[0] == c[0] {
        lemma_lt_trans(a.drop_first(), b.drop_first(), c.drop_first());
    }
}

proof fn lemma_lt_asym(a: Seq<char>, b: Seq<char>)
    requires
        chars_lt(a, b),
    ensures
        !chars_lt(b, a),
    decreases a.len(),
{
    if a.len() > 0 && b.len() > 0 && a[0] == b[0] {
        lemma_lt_asym(a.drop_first(), b.drop_first());
    }
}

proof fn lemma_lt_total(a: Seq<char>, b: Seq<char>)
    ensures
        chars_lt(a, b) || a == b || chars_lt(b, a),
    decreases a.len(),
{
    if a.len() > 0 && b.len() > 0 && a[0] == b[0] {
        lemma_lt_total(a.drop_first(), b.drop_first());
        if a.drop_first() == b.drop_first() {
            assert forall|i: int| 0 <= i < a.len() implies a[i] == b[i] by {
                if i > 0 {
                    assert(a[i] == a.drop_first()[i - 1]);
                    assert(b[i] == b.drop_first()[i - 1]);
                }
            }
            assert(a =~= b);
        }
    } else if a.len() == 0 && b.len() == 0 {
        assert(a =~= b);
    } else if a.len() > 0 && b.len() > 0 {
        assert((a[0] as int) != (b[0] as int));
    }
}

/// Whether `a` sorts before `b`.
fn chars_less(a: &Vec<char>, b: &Vec<char>) -> (r: bool)
    ensures
        r == chars_lt(a@, b@),
{
    let mut i: usize = 0;
    proof {
        assert(a@.skip(0) =~= a@);
        assert(b@.skip(0) =~= b@);
    }
    while i < a.len() && i < b.len() && a[i] == b[i]
        invariant
            i <= a.len(),
            i <= b.len(),
            chars_lt(a@, b@) == chars_lt(a@.skip(i as int), b@.skip(i as int)),
        decreases a.len() - i,
    {
        proof {
            let x = a@.skip(i as int);
            let y = b@.skip(i as int);
            assert(x.drop_first() =~= a@.skip(i + 1));
            assert(y.drop_first() =~= b@.skip(i + 1));
        }
        i += 1;
    }
    proof {
        assert(a@.skip(0) =~= a@);
        assert(b@.skip(0) =~= b@);
    }
    if i == b.len() {
        false
    } else if i == a.len() {
        true
    } else {
        a[i] < b[i]
    }
}

/// Unicode lowercase of a string (`str::to_lowercase`).
pub uninterp spec fn lowercase(s: Seq<char>) -> Seq<char>;

/// `str::to_lowercase`. Claimed: the result is the named lowercase mapping of
/// `s`.
#[verifier::external_body]
fn to_lowercase(s: &str) -> (r: String)
    ensures
        r@ == lowercase(s@),
{
    s.to_lowercase()
}

/// The key profiles are listed by: the lowercased display name.
pub open spec fn name_key(m: ProfileMeta) -> Seq<char> {
    lowercase(m.name@)
}

/// Listed in order of [`name_key`].
pub open spec fn sorted_by_name(s: Seq<ProfileMeta>) -> bool {
    forall|i: int, j: int| 0 <= i < j < s.len() ==> !chars_lt(name_key(s[j]), name_key(s[i]))
}

/// The profiles of `s` whose key is `k`, in order.
pub open spec fn with_key(s: Seq<ProfileMeta>, k: Seq<char>) -> Seq<ProfileMeta>
    decreases s.len(),
{
    if s.len() == 0 {
        Seq::empty()
    } else {
        with_key(s.drop_last(), k) + if name_key(s.last()) == k {
            seq![s.last()]
        } else {
            Seq::empty()
        }
    }
}

proof fn lemma_with_key_concat(a: Seq<ProfileMeta>, b: Seq<ProfileMeta>, k: Seq<char>)
    ensures
        with_key(a + b, k) == with_key(a, k) + with_key(b, k),
    decreases b.len(),
{
    if b.len() == 0 {
        assert(a + b =~= a);
        assert(with_key(a, k) + with_key(b, k) =~= with_key(a, k));
    } else {
        lemma_with_key_concat(a, b.drop_last(), k);
        assert((a + b).drop_last() =~= a + b.drop_last());
        assert((a + b).last() == b.last());
        assert(with_key(a + b, k) =~= with_key(a, k) + with_key(b, k));
    }
}

proof fn lemma_with_key_none(a: Seq<ProfileMeta>, k: Seq<char>)
    requires
        forall|i: int| 0 <= i < a.len() ==> name_key(#[trigger] a[i]) != k,
    ensures
        with_key(a, k) == Seq::<ProfileMeta>::empty(),
    decreases a.len(),
{
    if a.len() > 0 {
        assert(name_key(a[a.len() - 1]) != k);
        lemma_with_key_none(a.drop_last(), k);
        assert(with_key(a, k) =~= Seq::<ProfileMeta>::empty());
    }
}

proof fn lemma_with_key_single(m: ProfileMeta, k: Seq<char>)
    ensures
        with_key(seq![m], k) == (if name_key(m) == k {
            seq![m]
        } else {
            Seq::<ProfileMeta>::empty()
        }),
{
    assert(seq![m].drop_last() =~= Seq::<ProfileMeta>::empty());
    assert(with_key(Seq::<ProfileMeta>::empty(), k) == Seq::<ProfileMeta>::empty());
    assert(seq![m].last() == m);
    assert(with_key(seq![m], k) =~= (if name_key(m) == k {
        seq![m]
    } else {
        Seq::<ProfileMeta>::empty()
    }));
}

/// Order profiles by case-insensitive name for the network list. The sort is
/// stable: profiles with the same key keep their input order.
pub fn sort_profiles(v: Vec<ProfileMeta>) -> (r: Vec<ProfileMeta>)
    ensures
        sorted_by_name(r@),
        r@.to_multiset() == v@.to_multiset(),
        forall|k: Seq<char>| #[trigger] with_key(r@, k) == with_key(v@, k),
{
    broadcast use vstd::seq_lib::group_to_multiset_ensures, vstd::multiset::group_multiset_axioms, vstd::multiset::group_multiset_properties;

    let ghost orig = v@;
    let mut rest = v;
    let mut out: Vec<ProfileMeta> = Vec::new();
    let mut keys: Vec<Vec<char>> = Vec::new();
    proof {
        assert(out@.to_multiset() =~= vstd::multiset::Multiset::<ProfileMeta>::empty());
        assert(out@.to_multiset().add(rest@.to_multiset()) =~= orig.to_multiset());
        assert(orig.take(orig.len() as int) =~= orig);
        assert(orig.skip(orig.len() as int) =~= Seq::<ProfileMeta>::empty());
        assert(out@ =~= Seq::<ProfileMeta>::empty());
    }
    while rest.len() > 0
        invariant
            sorted_by_name(out@),
            keys@.len() == out@.len(),
            forall|k: int| 0 <= k < out@.len() ==> (#[trigger] keys@[k])@ == name_key(out@[k]),
            out@.to_multiset().add(rest@.to_multiset()) == orig.to_multiset(),
            rest@ == orig.take(rest@.len() as int),
            rest@.len() <= orig.len(),
            forall|k: Seq<char>| #[trigger] with_key(out@, k) == with_key(orig.skip(rest@.len() as int), k),
        decreases rest.len(),
    {
        let ghost before = rest@;
        let ghost out_before = out@;
        let m = rest.pop().unwrap();
        assert(before =~= rest@.push(m));
        assert(orig.skip(rest@.len() as int) =~= seq![m] + orig.skip(before.len() as int)) by {
            assert(orig[rest@.len() as int] == before[rest@.len() as int]);
        }
        assert(rest@ =~= orig.take(rest@.len() as int));
        let lk = to_lowercase(m.name.as_str());
        let key = crate::text::chars_of(lk.as_str());
        let mut p: usize = 0;
        while p < out.len() && chars_less(&keys[p], &key)
            invariant
                p <= out@.len(),
                keys@.len() == out@.len(),
                forall|k: int| 0 <= k < out@.len() ==> (#[trigger] keys@[k])@ == name_key(out@[k]),
                forall|k: int| 0 <= k < p ==> chars_lt(name_key(#[trigger] out@[k]), key@),
            decreases out.len() - p,
        {
            p += 1;
        }
        proof {
            let x = key@;
            assert(x == name_key(m));
            assert forall|k: int| 0 <= k < p implies !chars_lt(x, name_key(#[trigger] out@[k])) by {
                lemma_lt_asym(name_key(out@[k]), x);
            }
            if p < out@.len() {
                assert(!chars_lt(name_key(out@[p as int]), x));
                assert forall|k: int| p <= k < out@.len() implies !chars_lt(name_key(#[trigger] out@[k]), x) by {
                    if k > p && chars_lt(name_key(out@[k]), x) {
                        lemma_lt_total(x, name_key(out@[p as int]));
                        if x == name_key(out@[p as int]) {
                        } else {
                            lemma_lt_trans(name_key(out@[k]), x, name_key(out@[p as int]));
                        }
                    }
                }
            }
        }
        out.insert(p, m);
        keys.insert(p, key);
        proof {
            let x = name_key(m);
            assert forall|i: int, j: int| 0 <= i < j < out@.len() implies !chars_lt(name_key(#[trigger] out@[j]), name_key(#[trigger] out@[i])) by {
                if i == p as int {
                } else if j == p as int {
                } else {
                }
            }
            assert forall|k: int| 0 <= k < out@.len() implies (#[trigger] keys@[k])@ == name_key(out@[k]) by {
                if k < p as int {
                } else if k == p as int {
                } else {
                }
            }
            assert(out@ == out_before.insert(p as int, m));
            let done = orig.skip(before.len() as int);
            assert forall|k: Seq<char>| #[trigger] with_key(out@, k) == with_key(orig.skip(rest@.len() as int), k) by {
                let lo = out_before.take(p as int);
                let hi = out_before.skip(p as int);
                assert(out_before =~= lo + hi);
                assert(out@ =~= lo + (seq![m] + hi));
                lemma_with_key_concat(lo, seq![m] + hi, k);
                lemma_with_key_concat(seq![m], hi, k);
                lemma_with_key_concat(lo, hi, k);
                lemma_with_key_concat(seq![m], done, k);
                lemma_with_key_single(m, k);
                assert(with_key(out_before, k) == with_key(done, k));
                if name_key(m) == k {
                    assert forall|i: int| 0 <= i < lo.len() implies name_key(#[trigger] lo[i]) != k by {
                        assert(lo[i] == out_before[i]);
                        assert(chars_lt(name_key(out_before[i]), name_key(m)));
                        if name_key(out_before[i]) == name_key(m) {
                            lemma_lt_asym(name_key(m), name_key(m));
                        }
                    }
                    lemma_with_key_none(lo, k);
                    assert(with_key(lo, k) + with_key(hi, k) =~= with_key(hi, k));
                    assert(Seq::<ProfileMeta>::empty() + (seq![m] + with_key(hi, k)) =~= seq![m] + with_key(hi, k));
                } else {
                    assert(with_key(lo, k) + (Seq::<ProfileMeta>::empty() + with_key(hi, k)) =~= with_key(lo, k) + with_key(hi, k));
                    assert(Seq::<ProfileMeta>::empty() + with_key(done, k) =~= with_key(done, k));
                }
            }
            vstd::seq_lib::to_multiset_insert(out_before, p as int, m);
            vstd::seq_lib::to_multiset_build(rest@, m);
            assert(out@.to_multiset().add(rest@.to_multiset()) =~= out_before.to_multiset().add(before.to_multiset()));
        }
    }
    assert(rest@ =~= Seq::<ProfileMeta>::empty());
    assert(orig.skip(0) =~= orig);
    assert(rest@.to_multiset() =~= vstd::multiset::Multiset::<ProfileMeta>::empty());
    assert(out@.to_multiset().add(rest@.to_multiset()) =~= out@.to_multiset());
    out
}

} // verus!
