//! FUSE mount bookkeeping: mount point names, configuration updates and
//! lookups over the daemon's mount list.

use vstd::prelude::*;

use crate::text::{chars_of, dec, push_char, push_decimal, push_str, string_of};
use vstd::string::*;

verus! {

/// What `char::is_alphanumeric` answers for `c`.
pub uninterp spec fn char_is_alphanumeric(c: char) -> bool;

pub open spec fn ascii_alphanumeric(c: char) -> bool {
    ('a' <= c && c <= 'z') || ('A' <= c && c <= 'Z') || ('0' <= c && c <= '9')
}

/// Calls `char::is_alphanumeric`, which answers whether `c` is alphabetic
/// or numeric in Unicode's sense. Among ASCII characters those are exactly
/// the letters and digits; what it answers beyond ASCII is given a name
/// and not spelled out.
#[verifier::external_body]
fn is_alphanumeric(c: char) -> (r: bool)
    ensures
        r == char_is_alphanumeric(c),
        (c as u32) < 128 ==> (r == ascii_alphanumeric(c)),
{
    c.is_alphanumeric()
}

/// The character that stands for `c` in a mount point name.
pub open spec fn mount_char(c: char) -> char {
    if char_is_alphanumeric(c) || c == '-' || c == '_' {
        c
    } else {
        '-'
    }
}

/// `s` without its leading and trailing runs of `c` (`str::trim_matches`).
pub open spec fn trim_both(s: Seq<char>, c: char) -> Seq<char> {
    crate::paths::trim_end(crate::paths::trim_start(s, c), c)
}

/// A bucket name made fit for a directory name: every character other than
/// a letter, a digit, `-` or `_` becomes `-`, and dashes at both ends are
/// dropped.
pub open spec fn sanitized(name: Seq<char>) -> Seq<char> {
    trim_both(Seq::new(name.len(), |i: int| mount_char(name[i])), '-')
}

proof fn lemma_trim_start_at(s: Seq<char>, c: char, k: int)
    requires
        0 <= k <= s.len(),
        forall|j: int| 0 <= j < k ==> s[j] == c,
        k == s.len() || s[k] != c,
    ensures
        crate::paths::trim_start(s, c) == s.skip(k),
    decreases k,
{
    if k == 0 {
        assert(s.skip(0) =~= s);
    } else {
        let t = s.drop_first();
        assert forall|j: int| 0 <= j < k - 1 implies t[j] == c by {
            assert(t[j] == s[j + 1]);
        }
        lemma_trim_start_at(t, c, k - 1);
        assert(t.skip(k - 1) =~= s.skip(k));
    }
}

proof fn lemma_trim_end_at(s: Seq<char>, c: char, k: int)
    requires
        0 <= k <= s.len(),
        forall|j: int| k <= j < s.len() ==> s[j] == c,
        k == 0 || s[k - 1] != c,
    ensures
        crate::paths::trim_end(s, c) == s.take(k),
    decreases s.len() - k,
{
    if k == s.len() {
        assert(s.take(k) =~= s);
    } else {
        let t = s.drop_last();
        lemma_trim_end_at(t, c, k);
        assert(t.take(k) =~= s.take(k));
    }
}

/// Sanitize bucket name for use as mount point
pub fn sanitize_mount_name(name: &str) -> (r: String)
    ensures
        r@ == sanitized(name@),
{
    let cs = chars_of(name);
    let mut mapped: Vec<char> = Vec::new();
    let mut i: usize = 0;
    while i < cs.len()
        invariant
            i <= cs.len(),
            cs@ == name@,
            mapped@ == Seq::new(i as nat, |k: int| mount_char(cs@[k])),
        decreases cs.len() - i,
    {
        let c = cs[i];
        let m = if is_alphanumeric(c) || c == '-' || c == '_' {
            c
        } else {
            '-'
        };
        mapped.push(m);
        i += 1;
        assert(mapped@ =~= Seq::new(i as nat, |k: int| mount_char(cs@[k])));
    }
    let ghost full = mapped@;
    assert(full =~= Seq::new(name@.len(), |k: int| mount_char(name@[k])));
    let mut a: usize = 0;
    while a < mapped.len() && mapped[a] == '-'
        invariant
            a <= mapped.len(),
            forall|j: int| 0 <= j < a ==> mapped@[j] == '-',
        decreases mapped.len() - a,
    {
        a += 1;
    }
    let mut b: usize = mapped.len();
    while b > a && mapped[b - 1] == '-'
        invariant
            a <= b <= mapped.len(),
            forall|j: int| b <= j < mapped.len() ==> mapped@[j] == '-',
        decreases b,
    {
        b -= 1;
    }
    proof {
        lemma_trim_start_at(full, '-', a as int);
        let t = full.skip(a as int);
        assert forall|j: int| (b - a) <= j < t.len() implies t[j] == '-' by {
            assert(t[j] == full[j + a]);
        }
        if b > a {
            assert(t[b - a - 1] == full[b - 1]);
        }
        lemma_trim_end_at(t, '-', (b - a) as int);
    }
    let mut out: Vec<char> = Vec::new();
    let mut k: usize = a;
    while k < b
        invariant
            a <= k <= b <= mapped.len(),
            out@ == mapped@.subrange(a as int, k as int),
        decreases b - k,
    {
        out.push(mapped[k]);
        k += 1;
        assert(out@ =~= mapped@.subrange(a as int, k as int));
    }
    assert(full.skip(a as int).take((b - a) as int) =~= mapped@.subrange(a as int, b as int));
    string_of(&out)
}

proof fn lemma_trim_start_suffix(s: Seq<char>, c: char)
    ensures
        exists|a: int| 0 <= a <= s.len() && #[trigger] crate::paths::trim_start(s, c) == s.skip(a),
        crate::paths::trim_start(s, c).len() > 0 ==> crate::paths::trim_start(s, c)[0] != c,
    decreases s.len(),
{
    if s.len() > 0 && s[0] == c {
        lemma_trim_start_suffix(s.drop_first(), c);
        let a = choose|a: int|
            0 <= a <= s.drop_first().len() && #[trigger] crate::paths::trim_start(s.drop_first(), c)
                == s.drop_first().skip(a);
        assert(s.drop_first().skip(a) =~= s.skip(a + 1));
    } else {
        assert(s.skip(0) =~= s);
    }
}

proof fn lemma_trim_end_prefix(s: Seq<char>, c: char)
    ensures
        exists|b: int| 0 <= b <= s.len() && #[trigger] crate::paths::trim_end(s, c) == s.take(b),
        crate::paths::trim_end(s, c).len() > 0 ==> crate::paths::trim_end(s, c).last() != c,
    decreases s.len(),
{
    if s.len() > 0 && s.last() == c {
        lemma_trim_end_prefix(s.drop_last(), c);
        let b = choose|b: int|
            0 <= b <= s.drop_last().len() && #[trigger] crate::paths::trim_end(s.drop_last(), c)
                == s.drop_last().take(b);
        assert(s.drop_last().take(b) =~= s.take(b));
    } else {
        assert(s.take(s.len() as int) =~= s);
    }
}

/// Trimming keeps a middle part of `s`, with no `c` at either end.
proof fn lemma_trim_both(s: Seq<char>, c: char)
    ensures
        exists|a: int, b: int|
            0 <= a <= b <= s.len() && #[trigger] trim_both(s, c) == s.subrange(a, b),
        trim_both(s, c).len() > 0 ==> trim_both(s, c)[0] != c && trim_both(s, c).last() != c,
{
    let u = crate::paths::trim_start(s, c);
    lemma_trim_start_suffix(s, c);
    lemma_trim_end_prefix(u, c);
    let a = choose|a: int| 0 <= a <= s.len() && #[trigger] crate::paths::trim_start(s, c) == s.skip(a);
    let b = choose|b: int| 0 <= b <= u.len() && #[trigger] crate::paths::trim_end(u, c) == u.take(b);
    assert(u.take(b) =~= s.subrange(a, a + b));
    let t = trim_both(s, c);
    if t.len() > 0 {
        assert(t[0] == u[0]);
    }
}

/// A sanitized name is made of letters, digits, `-` and `_`, and neither
/// starts nor ends with `-`.
pub proof fn lemma_sanitized_shape(name: Seq<char>)
    ensures
        forall|i: int|
            0 <= i < sanitized(name).len() ==> {
                let c = #[trigger] sanitized(name)[i];
                char_is_alphanumeric(c) || c == '-' || c == '_'
            },
        sanitized(name).len() > 0 ==> sanitized(name)[0] != '-' && sanitized(name).last()
            != '-',
{
    let full = Seq::new(name.len(), |i: int| mount_char(name[i]));
    lemma_trim_both(full, '-');
    let (a, b) = choose|a: int, b: int|
        0 <= a <= b <= full.len() && #[trigger] trim_both(full, '-') == full.subrange(a, b);
    let t = trim_both(full, '-');
    assert forall|i: int| 0 <= i < t.len() implies {
        let c = #[trigger] t[i];
        char_is_alphanumeric(c) || c == '-' || c == '_'
    } by {
        assert(t[i] == full[a + i]);
    }
}

/// Sanitizing a name that is already sanitized leaves it unchanged.
pub proof fn lemma_sanitize_idempotent(name: Seq<char>)
    ensures
        sanitized(sanitized(name)) == sanitized(name),
{
    let s = sanitized(name);
    lemma_sanitized_shape(name);
    let full = Seq::new(s.len(), |i: int| mount_char(s[i]));
    assert(full =~= s);
    if s.len() > 0 {
        assert(crate::paths::trim_start(s, '-') == s);
        assert(crate::paths::trim_end(s, '-') == s);
    } else {
        assert(crate::paths::trim_start(s, '-') == s);
        assert(crate::paths::trim_end(s, '-') == s);
    }
}


/// `dir` joined with a relative `name`, as `Path::join` puts them together.
pub open spec fn join_path(dir: Seq<char>, name: Seq<char>) -> Seq<char> {
    if dir.len() == 0 {
        name
    } else if dir.last() == '/' {
        dir + name
    } else {
        dir + seq!['/'] + name
    }
}

pub fn join_path_str(dir: &str, name: &str) -> (r: String)
    ensures
        r@ == join_path(dir@, name@),
{
    let d = chars_of(dir);
    let mut r = string_of(&d);
    if d.len() > 0 && d[d.len() - 1] != '/' {
        push_char(&mut r, '/');
    }
    push_str(&mut r, name);
    r
}

/// The `i`-th mount point tried for a bucket (counting from one): the
/// sanitized name itself first, then the name with `-2` up to `-99`.
pub open spec fn mount_point_candidate(base: Seq<char>, name: Seq<char>, i: nat) -> Seq<char> {
    if i <= 1 {
        join_path(base, name)
    } else {
        join_path(base, name + seq!['-'] + dec(i))
    }
}

pub open spec fn string_views(v: Seq<String>) -> Seq<Seq<char>> {
    Seq::new(v.len(), |i: int| v[i]@)
}

/// The mount points to try, in order: 99 of them.
pub fn mount_point_candidates(base_dir: &str, sanitized_name: &str) -> (r: Vec<String>)
    ensures
        r@.len() == 99,
        forall|i: int|
            0 <= i < 99 ==> (#[trigger] r@[i])@ == mount_point_candidate(
                base_dir@,
                sanitized_name@,
                (i + 1) as nat,
            ),
{
    let mut r: Vec<String> = Vec::new();
    r.push(join_path_str(base_dir, sanitized_name));
    let mut i: u64 = 2;
    while i < 100
        invariant
            2 <= i <= 100,
            r@.len() == i - 1,
            forall|k: int|
                0 <= k < i - 1 ==> (#[trigger] r@[k])@ == mount_point_candidate(
                    base_dir@,
                    sanitized_name@,
                    (k + 1) as nat,
                ),
        decreases 100 - i,
    {
        let mut name = String::from_str(sanitized_name);
        push_char(&mut name, '-');
        push_decimal(&mut name, i);
        r.push(join_path_str(base_dir, name.as_str()));
        i += 1;
    }
    r
}

/// A mount point named by a suffix (the fallback when all numbered names
/// are taken): the sanitized name, `-`, and the suffix.
pub fn mount_point_with_suffix(base_dir: &str, sanitized_name: &str, suffix: &str) -> (r: String)
    ensures
        r@ == join_path(base_dir@, sanitized_name@ + seq!['-'] + suffix@),
{
    let mut name = String::from_str(sanitized_name);
    push_char(&mut name, '-');
    push_str(&mut name, suffix);
    join_path_str(base_dir, name.as_str())
}

/// Whether `s` is one of `v`.
pub fn contains_string(v: &Vec<String>, s: &String) -> (r: bool)
    ensures
        r == string_views(v@).contains(s@),
{
    let mut i: usize = 0;
    while i < v.len()
        invariant
            i <= v.len(),
            forall|k: int| 0 <= k < i ==> v@[k]@ != s@,
        decreases v.len() - i,
    {
        if v[i] == *s {
            assert(string_views(v@)[i as int] == s@);
            return true;
        }
        i += 1;
    }
    assert forall|k: int| 0 <= k < string_views(v@).len() implies string_views(v@)[k] != s@ by {
        assert(string_views(v@)[k] == v@[k]@);
    }
    false
}

/// A mount point is free when no configured mount uses it and nothing
/// exists at that path.
pub open spec fn is_free(candidate: Seq<char>, existing: Seq<Seq<char>>, on_disk: bool) -> bool {
    !existing.contains(candidate) && !on_disk
}

/// The first free candidate, given for each candidate whether something
/// already exists at its path.
pub fn choose_mount_point(candidates: &Vec<String>, existing: &Vec<String>, on_disk: &Vec<bool>) -> (r:
    Option<usize>)
    requires
        on_disk.len() == candidates.len(),
    ensures
        match r {
            Some(i) => i < candidates.len() && is_free(
                candidates@[i as int]@,
                string_views(existing@),
                on_disk@[i as int],
            ) && forall|j: int|
                0 <= j < i ==> !is_free(
                    #[trigger] candidates@[j]@,
                    string_views(existing@),
                    on_disk@[j],
                ),
            None => forall|j: int|
                0 <= j < candidates.len() ==> !is_free(
                    #[trigger] candidates@[j]@,
                    string_views(existing@),
                    on_disk@[j],
                ),
        },
{
    let mut i: usize = 0;
    while i < candidates.len()
        invariant
            i <= candidates.len(),
            on_disk.len() == candidates.len(),
            forall|j: int|
                0 <= j < i ==> !is_free(
                    #[trigger] candidates@[j]@,
                    string_views(existing@),
                    on_disk@[j],
                ),
        decreases candidates.len() - i,
    {
        if !contains_string(existing, &candidates[i]) && !on_disk[i] {
            return Some(i);
        }
        i += 1;
    }
    None
}

/// The mount point used when every numbered name is taken: the name with
/// the first eight characters of a random id.
pub open spec fn fallback_mount_point(base: Seq<char>, name: Seq<char>, id: u128) -> Seq<char> {
    join_path(base, name + seq!['-'] + crate::gateway::id_text(id).take(8))
}

/// The fallback mount point for a given id.
pub fn mount_point_fallback(base_dir: &str, sanitized_name: &str, id: u128) -> (r: String)
    ensures
        r@ == fallback_mount_point(base_dir@, sanitized_name@, id),
{
    let text = crate::gateway::id_to_text(id);
    let cs = chars_of(text.as_str());
    let mut suffix = String::new();
    crate::gateway::push_range(&mut suffix, &cs, 0, 8);
    assert(cs@.subrange(0, 8) =~= cs@.take(8));
    mount_point_with_suffix(base_dir, sanitized_name, suffix.as_str())
}

/// The `i`-th candidate (from zero) is free.
pub open spec fn candidate_free(
    base: Seq<char>,
    name: Seq<char>,
    existing: Seq<Seq<char>>,
    on_disk: Seq<bool>,
    i: int,
) -> bool {
    is_free(mount_point_candidate(base, name, (i + 1) as nat), existing, on_disk[i])
}

/// `r` is the mount point generated for a bucket: the first free candidate,
/// else the fallback with the random id.
pub open spec fn is_generated_mount_point(
    base: Seq<char>,
    bucket_name: Seq<char>,
    ex: Seq<Seq<char>>,
    on_disk: Seq<bool>,
    random_id: u128,
    r: Seq<char>,
) -> bool {
    let name = sanitized(bucket_name);
    (exists|i: int|
        0 <= i < 99 && #[trigger] candidate_free(base, name, ex, on_disk, i) && r
            == mount_point_candidate(base, name, (i + 1) as nat) && forall|j: int|
            0 <= j < i ==> !#[trigger] candidate_free(base, name, ex, on_disk, j)) || ((forall|j: int|
        0 <= j < 99 ==> !#[trigger] candidate_free(base, name, ex, on_disk, j)) && r
        == fallback_mount_point(base, name, random_id))
}

/// A unique mount point for a bucket: the first of its candidate paths
/// (see `mount_point_candidates`) that no mount uses and nothing occupies
/// on disk (`on_disk[i]` tells whether the `i`-th is occupied), else the
/// path suffixed with the start of `random_id`, which the caller draws.
pub fn generate_mount_point(
    base_dir: &str,
    bucket_name: &str,
    existing: &Vec<String>,
    on_disk: &Vec<bool>,
    random_id: u128,
) -> (r: String)
    requires
        on_disk@.len() == 99,
    ensures
        is_generated_mount_point(
            base_dir@,
            bucket_name@,
            string_views(existing@),
            on_disk@,
            random_id,
            r@,
        ),
{
    let name = sanitize_mount_name(bucket_name);
    let candidates = mount_point_candidates(base_dir, name.as_str());
    let ghost ex = string_views(existing@);
    match choose_mount_point(&candidates, existing, on_disk) {
        Some(i) => {
            let r = candidates[i].clone();
            assert(candidate_free(base_dir@, name@, ex, on_disk@, i as int));
            assert forall|j: int| 0 <= j < i implies !#[trigger] candidate_free(
                base_dir@,
                name@,
                ex,
                on_disk@,
                j,
            ) by {
                assert(candidates@[j]@ == mount_point_candidate(base_dir@, name@, (j + 1) as nat));
            }
            r
        },
        None => {
            assert forall|j: int| 0 <= j < 99 implies !#[trigger] candidate_free(
                base_dir@,
                name@,
                ex,
                on_disk@,
                j,
            ) by {
                assert(candidates@[j]@ == mount_point_candidate(base_dir@, name@, (j + 1) as nat));
            }
            mount_point_fallback(base_dir, name.as_str(), random_id)
        },
    }
}

/// The configurable part of a FUSE mount.
pub struct MountConfig {
    pub mount_point: String,
    pub enabled: bool,
    pub auto_mount: bool,
    pub read_only: bool,
    pub cache_size_mb: u32,
    pub cache_ttl_secs: u32,
}

impl View for MountConfig {
    type V = (Seq<char>, bool, bool, bool, u32, u32);

    open spec fn view(&self) -> (Seq<char>, bool, bool, bool, u32, u32) {
        (
            self.mount_point@,
            self.enabled,
            self.auto_mount,
            self.read_only,
            self.cache_size_mb,
            self.cache_ttl_secs,
        )
    }
}

/// Request to update a mount: each field that is given replaces the
/// current one.
pub struct UpdateMountRequest {
    pub mount_point: Option<String>,
    pub enabled: Option<bool>,
    pub auto_mount: Option<bool>,
    pub read_only: Option<bool>,
    pub cache_size_mb: Option<u32>,
    pub cache_ttl_secs: Option<u32>,
}

impl View for UpdateMountRequest {
    type V = (Option<Seq<char>>, Option<bool>, Option<bool>, Option<bool>, Option<u32>, Option<u32>);

    open spec fn view(&self) -> (
        Option<Seq<char>>,
        Option<bool>,
        Option<bool>,
        Option<bool>,
        Option<u32>,
        Option<u32>,
    ) {
        (
            match self.mount_point {
                Some(p) => Some(p@),
                None => None,
            },
            self.enabled,
            self.auto_mount,
            self.read_only,
            self.cache_size_mb,
            self.cache_ttl_secs,
        )
    }
}

pub open spec fn or_keep<T>(new: Option<T>, old: T) -> T {
    match new {
        Some(v) => v,
        None => old,
    }
}

/// The configuration after an update.
pub open spec fn updated_config(
    c: (Seq<char>, bool, bool, bool, u32, u32),
    u: (Option<Seq<char>>, Option<bool>, Option<bool>, Option<bool>, Option<u32>, Option<u32>),
) -> (Seq<char>, bool, bool, bool, u32, u32) {
    (
        or_keep(u.0, c.0),
        or_keep(u.1, c.1),
        or_keep(u.2, c.2),
        or_keep(u.3, c.3),
        or_keep(u.4, c.4),
        or_keep(u.5, c.5),
    )
}

/// Applies an update to a mount's configuration.
pub fn apply_mount_update(existing: &MountConfig, update: &UpdateMountRequest) -> (r: MountConfig)
    ensures
        r@ == updated_config(existing@, update@),
        r.mount_point@ == match update.mount_point {
            Some(p) => p@,
            None => existing.mount_point@,
        },
        r.enabled == match update.enabled {
            Some(v) => v,
            None => existing.enabled,
        },
        r.auto_mount == match update.auto_mount {
            Some(v) => v,
            None => existing.auto_mount,
        },
        r.read_only == match update.read_only {
            Some(v) => v,
            None => existing.read_only,
        },
        r.cache_size_mb == match update.cache_size_mb {
            Some(v) => v,
            None => existing.cache_size_mb,
        },
        r.cache_ttl_secs == match update.cache_ttl_secs {
            Some(v) => v,
            None => existing.cache_ttl_secs,
        },
{
    let mount_point = match &update.mount_point {
        Some(p) => p.clone(),
        None => existing.mount_point.clone(),
    };
    MountConfig {
        mount_point,
        enabled: match update.enabled {
            Some(v) => v,
            None => existing.enabled,
        },
        auto_mount: match update.auto_mount {
            Some(v) => v,
            None => existing.auto_mount,
        },
        read_only: match update.read_only {
            Some(v) => v,
            None => existing.read_only,
        },
        cache_size_mb: match update.cache_size_mb {
            Some(v) => v,
            None => existing.cache_size_mb,
        },
        cache_ttl_secs: match update.cache_ttl_secs {
            Some(v) => v,
            None => existing.cache_ttl_secs,
        },
    }
}

/// Applying the same update twice gives what applying it once gives.
pub proof fn lemma_update_idempotent(
    c: (Seq<char>, bool, bool, bool, u32, u32),
    u: (Option<Seq<char>>, Option<bool>, Option<bool>, Option<bool>, Option<u32>, Option<u32>),
)
    ensures
        updated_config(updated_config(c, u), u) == updated_config(c, u),
{
}

/// An update that gives no field leaves the configuration as it was.
pub proof fn lemma_empty_update_keeps(c: (Seq<char>, bool, bool, bool, u32, u32))
    ensures
        updated_config(c, (None, None, None, None, None, None)) == c,
{
}

/// The cache settings of a new mount: 100 MB and 60 seconds unless given.
pub fn cache_settings(cache_size_mb: Option<u32>, cache_ttl_secs: Option<u32>) -> (r: (u32, u32))
    ensures
        r == (or_keep(cache_size_mb, 100u32), or_keep(cache_ttl_secs, 60u32)),
{
    (
        match cache_size_mb {
            Some(v) => v,
            None => 100,
        },
        match cache_ttl_secs {
            Some(v) => v,
            None => 60,
        },
    )
}

/// A mount as the daemon lists it: the parts that lookups read.
pub struct MountEntry {
    pub mount_id: u128,
    pub bucket_id: u128,
    pub mount_point: String,
    pub status: String,
}

/// The first mount of a bucket (for unmounting it).
pub fn find_mount_for_bucket(mounts: &Vec<MountEntry>, bucket_id: u128) -> (r: Option<usize>)
    ensures
        match r {
            Some(i) => i < mounts.len() && mounts@[i as int].bucket_id == bucket_id && forall|j: int|
                0 <= j < i ==> (#[trigger] mounts@[j]).bucket_id != bucket_id,
            None => forall|j: int|
                0 <= j < mounts.len() ==> (#[trigger] mounts@[j]).bucket_id != bucket_id,
        },
{
    let mut i: usize = 0;
    while i < mounts.len()
        invariant
            i <= mounts.len(),
            forall|j: int| 0 <= j < i ==> (#[trigger] mounts@[j]).bucket_id != bucket_id,
        decreases mounts.len() - i,
    {
        if mounts[i].bucket_id == bucket_id {
            return Some(i);
        }
        i += 1;
    }
    None
}

pub open spec fn is_running_mount_of(m: MountEntry, bucket_id: u128) -> bool {
    m.bucket_id == bucket_id && m.status@ == "running"@
}

/// The first mount of a bucket whose status is `running`.
pub fn find_running_mount_for_bucket(mounts: &Vec<MountEntry>, bucket_id: u128) -> (r: Option<usize>)
    ensures
        match r {
            Some(i) => i < mounts.len() && is_running_mount_of(mounts@[i as int], bucket_id)
                && forall|j: int| 0 <= j < i ==> !is_running_mount_of(#[trigger] mounts@[j], bucket_id),
            None => forall|j: int|
                0 <= j < mounts.len() ==> !is_running_mount_of(#[trigger] mounts@[j], bucket_id),
        },
{
    let running = String::from_str("running");
    let mut i: usize = 0;
    while i < mounts.len()
        invariant
            i <= mounts.len(),
            running@ == "running"@,
            forall|j: int| 0 <= j < i ==> !is_running_mount_of(#[trigger] mounts@[j], bucket_id),
        decreases mounts.len() - i,
    {
        if mounts[i].bucket_id == bucket_id && mounts[i].status == running {
            return Some(i);
        }
        i += 1;
    }
    None
}

/// A bucket as the bucket list names it.
pub struct BucketRef {
    pub bucket_id: u128,
    pub name: String,
}

/// The first bucket with exactly the given name.
pub fn find_bucket_by_name(buckets: &Vec<BucketRef>, name: &str) -> (r: Option<u128>)
    ensures
        match r {
            Some(id) => exists|i: int|
                0 <= i < buckets.len() && (#[trigger] buckets@[i]).name@ == name@ && buckets@[i].bucket_id
                    == id && forall|j: int| 0 <= j < i ==> (#[trigger] buckets@[j]).name@ != name@,
            None => forall|j: int| 0 <= j < buckets.len() ==> (#[trigger] buckets@[j]).name@ != name@,
        },
{
    let wanted = String::from_str(name);
    let mut i: usize = 0;
    while i < buckets.len()
        invariant
            i <= buckets.len(),
            wanted@ == name@,
            forall|j: int| 0 <= j < i ==> (#[trigger] buckets@[j]).name@ != name@,
        decreases buckets.len() - i,
    {
        if buckets[i].name == wanted {
            return Some(buckets[i].bucket_id);
        }
        i += 1;
    }
    None
}

/// The name of the bucket with the given id, or `bucket` when the list
/// does not hold it.
pub fn bucket_name_or_default(buckets: &Vec<BucketRef>, bucket_id: u128) -> (r: String)
    ensures
        (exists|i: int| 0 <= i < buckets.len() && (#[trigger] buckets@[i]).bucket_id == bucket_id
            && r@ == buckets@[i].name@ && forall|j: int|
            0 <= j < i ==> (#[trigger] buckets@[j]).bucket_id != bucket_id) || ((forall|j: int|
            0 <= j < buckets.len() ==> (#[trigger] buckets@[j]).bucket_id != bucket_id) && r@
            == "bucket"@),
{
    let mut i: usize = 0;
    while i < buckets.len()
        invariant
            i <= buckets.len(),
            forall|j: int| 0 <= j < i ==> (#[trigger] buckets@[j]).bucket_id != bucket_id,
        decreases buckets.len() - i,
    {
        if buckets[i].bucket_id == bucket_id {
            return buckets[i].name.clone();
        }
        i += 1;
    }
    String::from_str("bucket")
}

/// Updating a mount replaces each field the update gives with the given
/// value and keeps every other field as it was; applying the same update
/// again changes nothing more.
pub proof fn lemma_update_replaces_given_fields(
    c: (Seq<char>, bool, bool, bool, u32, u32),
    u: (Option<Seq<char>>, Option<bool>, Option<bool>, Option<bool>, Option<u32>, Option<u32>),
)
    ensures
        ({
            let r = updated_config(c, u);
            &&& (u.0 matches Some(p) ==> r.0 == p) && (u.0 is None ==> r.0 == c.0)
            &&& (u.1 matches Some(v) ==> r.1 == v) && (u.1 is None ==> r.1 == c.1)
            &&& (u.2 matches Some(v) ==> r.2 == v) && (u.2 is None ==> r.2 == c.2)
            &&& (u.3 matches Some(v) ==> r.3 == v) && (u.3 is None ==> r.3 == c.3)
            &&& (u.4 matches Some(v) ==> r.4 == v) && (u.4 is None ==> r.4 == c.4)
            &&& (u.5 matches Some(v) ==> r.5 == v) && (u.5 is None ==> r.5 == c.5)
            &&& updated_config(r, u) == r
        }),
{
}

} // verus!
