//! Self-update decisions: how jax was installed, whether a newer release
//! exists, what to do about it, and reading the release list.

use vstd::prelude::*;

use crate::text::{chars_of, contains_chars, contains_seq, find_chars_from, find_from, find_seq, string_of};
use vstd::string::*;
use crate::version::{is_newer_version, newer, split_chars, split_on, views};

verus! {

/// The `jax update` options.
pub struct Update {
    /// Force update even if already on latest version
    pub force: bool,
    /// Install FUSE variant (macOS Apple Silicon only)
    pub fuse: bool,
}

/// How the running binary was installed.
#[derive(Debug, Clone, Copy, PartialEq, Eq, Structural)]
pub enum InstallMethod {
    /// Installed via install script to ~/.local/bin
    Script,
    /// Installed via cargo install to ~/.cargo/bin
    Cargo,
    /// Running from a source/target build directory
    Source,
    /// Unknown installation method
    Unknown,
}

pub open spec fn install_description(m: InstallMethod) -> Seq<char> {
    match m {
        InstallMethod::Script => "install script (~/.local/bin)"@,
        InstallMethod::Cargo => "cargo install (~/.cargo/bin)"@,
        InstallMethod::Source => "source build (target/)"@,
        InstallMethod::Unknown => "unknown"@,
    }
}

impl InstallMethod {
    /// Human-readable description of the installation method.
    pub fn description(&self) -> (r: &'static str)
        ensures
            r@ == install_description(*self),
    {
        match self {
            InstallMethod::Script => "install script (~/.local/bin)",
            InstallMethod::Cargo => "cargo install (~/.cargo/bin)",
            InstallMethod::Source => "source build (target/)",
            InstallMethod::Unknown => "unknown",
        }
    }
}

/// The installation method that an executable's path reveals.
pub open spec fn install_method_of(path: Seq<char>) -> InstallMethod {
    if contains_seq(path, "/.local/bin/"@) {
        InstallMethod::Script
    } else if contains_seq(path, "/.cargo/bin/"@) {
        InstallMethod::Cargo
    } else if contains_seq(path, "/target/"@) {
        InstallMethod::Source
    } else {
        InstallMethod::Unknown
    }
}

/// Classifies the running executable by its path; `None` (the path could
/// not be read) gives `Unknown`.
pub fn detect_installation(exe_path: Option<&str>) -> (r: InstallMethod)
    ensures
        r == match exe_path {
            Some(p) => install_method_of(p@),
            None => InstallMethod::Unknown,
        },
        exe_path matches Some(p) && (exists|k: int|
            0 <= k && k + 12 <= p@.len() && #[trigger] p@.subrange(k, k + 12) == "/.local/bin/"@)
            ==> r == InstallMethod::Script,
{
    proof {
        if let Some(p) = exe_path {
            lemma_install_method_by_path(p@);
        }
    }
    match exe_path {
        None => InstallMethod::Unknown,
        Some(p) => {
            let cs = chars_of(p);
            if contains_chars(&cs, &chars_of("/.local/bin/")) {
                InstallMethod::Script
            } else if contains_chars(&cs, &chars_of("/.cargo/bin/")) {
                InstallMethod::Cargo
            } else if contains_chars(&cs, &chars_of("/target/")) {
                InstallMethod::Source
            } else {
                InstallMethod::Unknown
            }
        },
    }
}

/// Whether this build carries FUSE support. The crate has no build-time
/// features and no FUSE code, so every build of it answers `false`; an
/// update then installs the release without FUSE.
pub fn has_fuse_feature() -> (r: bool)
    ensures
        !r,
{
    false
}

/// What an update run does once the latest release is known.
#[derive(Debug, Clone, Copy, PartialEq, Eq, Structural)]
pub enum UpdatePlan {
    /// Nothing to do: not newer, and not forced.
    AlreadyUpToDate,
    /// Run the install script; `newer` tells a real update from a forced one.
    RunInstaller { fuse: bool, newer: bool },
    /// A local build: ask before switching to the release binary.
    ConfirmSwitch { fuse: bool, newer: bool },
    /// The installation method is unknown: explain how to install.
    UnknownMethod { newer: bool },
}

pub open spec fn update_plan(
    method: InstallMethod,
    current: Seq<char>,
    latest: Seq<char>,
    force: bool,
    fuse_flag: bool,
    fuse_enabled: bool,
) -> UpdatePlan {
    let n = newer(current, latest);
    if !n && !force {
        UpdatePlan::AlreadyUpToDate
    } else {
        match method {
            InstallMethod::Script => UpdatePlan::RunInstaller {
                fuse: fuse_flag || fuse_enabled,
                newer: n,
            },
            InstallMethod::Cargo | InstallMethod::Source => UpdatePlan::ConfirmSwitch {
                fuse: fuse_flag || fuse_enabled,
                newer: n,
            },
            InstallMethod::Unknown => UpdatePlan::UnknownMethod { newer: n },
        }
    }
}

/// Decides what `jax update` does, given how jax was installed, the
/// running and latest versions, `--force`, `--fuse` and whether this build
/// has FUSE support.
pub fn plan_update(
    method: InstallMethod,
    current: &str,
    latest: &str,
    force: bool,
    fuse_flag: bool,
    fuse_enabled: bool,
) -> (p: UpdatePlan)
    ensures
        p == update_plan(method, current@, latest@, force, fuse_flag, fuse_enabled),
{
    let n = is_newer_version(current, latest);
    if !n && !force {
        UpdatePlan::AlreadyUpToDate
    } else {
        match method {
            InstallMethod::Script => UpdatePlan::RunInstaller { fuse: fuse_flag || fuse_enabled, newer: n },
            InstallMethod::Cargo | InstallMethod::Source => UpdatePlan::ConfirmSwitch {
                fuse: fuse_flag || fuse_enabled,
                newer: n,
            },
            InstallMethod::Unknown => UpdatePlan::UnknownMethod { newer: n },
        }
    }
}

/// An update run does nothing exactly when the latest release is not newer
/// and the update is not forced; in particular, asking for the version
/// that is running without `--force` does nothing.
pub proof fn lemma_update_needed(
    method: InstallMethod,
    current: Seq<char>,
    latest: Seq<char>,
    force: bool,
    fuse_flag: bool,
    fuse_enabled: bool,
)
    ensures
        (update_plan(method, current, latest, force, fuse_flag, fuse_enabled)
            == UpdatePlan::AlreadyUpToDate) <==> (!newer(current, latest) && !force),
        update_plan(method, current, current, false, fuse_flag, fuse_enabled)
            == UpdatePlan::AlreadyUpToDate,
{
    crate::version::lemma_newer_irreflexive(current);
}

/// The characters of Unicode's White_Space property, which `str::trim`
/// strips.
pub open spec fn is_white_space(c: char) -> bool {
    let n = c as u32;
    ||| 0x09 <= n <= 0x0D
    ||| n == 0x20 || n == 0x85 || n == 0xA0 || n == 0x1680
    ||| 0x2000 <= n <= 0x200A
    ||| n == 0x2028 || n == 0x2029 || n == 0x202F || n == 0x205F || n == 0x3000
}

pub open spec fn trim_white_start(s: Seq<char>) -> Seq<char>
    decreases s.len(),
{
    if s.len() > 0 && is_white_space(s[0]) {
        trim_white_start(s.drop_first())
    } else {
        s
    }
}

pub open spec fn trim_white_end(s: Seq<char>) -> Seq<char>
    decreases s.len(),
{
    if s.len() > 0 && is_white_space(s.last()) {
        trim_white_end(s.drop_last())
    } else {
        s
    }
}

/// A text without its leading and trailing white space.
pub open spec fn trim_white(s: Seq<char>) -> Seq<char> {
    trim_white_end(trim_white_start(s))
}

pub open spec fn all_ascii(s: Seq<char>) -> bool {
    forall|i: int| 0 <= i < s.len() ==> (#[trigger] s[i] as u32) < 128
}

pub open spec fn ascii_lower_char(c: char) -> char {
    if 'A' <= c && c <= 'Z' {
        ((c as u32) + 32) as char
    } else {
        c
    }
}

/// An ASCII text with its capital letters made small.
pub open spec fn ascii_lower(s: Seq<char>) -> Seq<char> {
    Seq::new(s.len(), |i: int| ascii_lower_char(s[i]))
}

/// What `str::to_lowercase` makes of a text.
pub uninterp spec fn lowercased(s: Seq<char>) -> Seq<char>;

/// Calls `str::trim`, which removes the leading and trailing characters of
/// the White_Space property, as its documentation says.
#[verifier::external_body]
fn trim_text(s: &str) -> (r: String)
    ensures
        r@ == trim_white(s@),
{
    s.trim().to_string()
}

/// Calls `str::to_lowercase`. The result is named; of an ASCII text it is
/// the text with `A`..`Z` made `a`..`z` (the Unicode lowercase mapping of
/// every other ASCII character is itself). What it makes of other
/// characters is left unsaid.
#[verifier::external_body]
fn lowercase_text(s: &str) -> (r: String)
    ensures
        r@ == lowercased(s@),
        all_ascii(s@) ==> r@ == ascii_lower(s@),
{
    s.to_lowercase()
}

/// Whether a trimmed, lowercased answer confirms: the default when it is
/// blank, else yes exactly for `y` or `yes`.
pub open spec fn confirms(a: Seq<char>, default_yes: bool) -> bool {
    if a.len() == 0 {
        default_yes
    } else {
        a == "y"@ || a == "yes"@
    }
}

proof fn lemma_trim_start_is_suffix(s: Seq<char>)
    ensures
        exists|k: int| 0 <= k <= s.len() && trim_white_start(s) == #[trigger] s.skip(k),
    decreases s.len(),
{
    if s.len() > 0 && is_white_space(s[0]) {
        lemma_trim_start_is_suffix(s.drop_first());
        let k = choose|k: int| 0 <= k <= s.drop_first().len() && trim_white_start(s.drop_first())
            == #[trigger] s.drop_first().skip(k);
        assert(s.drop_first().skip(k) =~= s.skip(k + 1));
    } else {
        assert(s.skip(0) =~= s);
    }
}

proof fn lemma_trim_end_is_prefix(s: Seq<char>)
    ensures
        exists|k: int| 0 <= k <= s.len() && trim_white_end(s) == #[trigger] s.take(k),
    decreases s.len(),
{
    if s.len() > 0 && is_white_space(s.last()) {
        lemma_trim_end_is_prefix(s.drop_last());
        let k = choose|k: int| 0 <= k <= s.drop_last().len() && trim_white_end(s.drop_last())
            == #[trigger] s.drop_last().take(k);
        assert(s.drop_last().take(k) =~= s.take(k));
    } else {
        assert(s.take(s.len() as int) =~= s);
    }
}

proof fn lemma_trim_keeps_ascii(s: Seq<char>)
    ensures
        all_ascii(s) ==> all_ascii(trim_white(s)),
{
    lemma_trim_start_is_suffix(s);
    let k = choose|k: int| 0 <= k <= s.len() && trim_white_start(s) == #[trigger] s.skip(k);
    let t = trim_white_start(s);
    lemma_trim_end_is_prefix(t);
    let j = choose|j: int| 0 <= j <= t.len() && trim_white_end(t) == #[trigger] t.take(j);
    if all_ascii(s) {
        let r = trim_white(s);
        assert forall|i: int| 0 <= i < r.len() implies (#[trigger] r[i] as u32) < 128 by {
            assert(r[i] == s[i + k]);
        }
    }
}

/// The answer to a yes/no question: the default when nothing could be read
/// or the answer is blank, else yes exactly for `y` or `yes` in any case.
pub open spec fn confirmed(line: Option<Seq<char>>, default_yes: bool) -> bool {
    match line {
        None => default_yes,
        Some(l) => confirms(lowercased(trim_white(l)), default_yes),
    }
}

/// Reads the user's answer to a confirmation prompt (`line` is `None` when
/// reading failed).
pub fn confirm_answer(line: Option<&str>, default_yes: bool) -> (r: bool)
    ensures
        r == confirmed(
            match line {
                Some(l) => Some(l@),
                None => None,
            },
            default_yes,
        ),
        line matches Some(l) ==> (all_ascii(l@) ==> r == confirms(ascii_lower(trim_white(l@)), default_yes)),
{
    match line {
        None => default_yes,
        Some(l) => {
            let t = trim_text(l);
            proof {
                lemma_trim_keeps_ascii(l@);
            }
            let a = lowercase_text(t.as_str());
            if a.as_str().unicode_len() == 0 {
                default_yes
            } else {
                a == String::from_str("y") || a == String::from_str("yes")
            }
        },
    }
}

/// The suffix of a confirmation prompt: `[Y/n]` when the default is yes.
pub fn prompt_suffix(default_yes: bool) -> (r: &'static str)
    ensures
        r@ == (if default_yes {
            "[Y/n]"@
        } else {
            "[y/N]"@
        }),
{
    if default_yes {
        "[Y/n]"
    } else {
        "[y/N]"
    }
}

/// The shell command that runs the install script, with `--fuse` for the
/// FUSE variant.
pub fn install_command(fuse: bool) -> (r: String)
    ensures
        r@ == "curl -fsSL https://raw.githubusercontent.com/jax-protocol/jax-fs/main/install.sh | sh -s --"@
            + (if fuse {
            " --fuse"@
        } else {
            ""@
        }),
{
    let mut r = String::from_str(
        "curl -fsSL https://raw.githubusercontent.com/jax-protocol/jax-fs/main/install.sh | sh -s --",
    );
    if fuse {
        crate::text::push_str(&mut r, " --fuse");
    } else {
        crate::text::push_str(&mut r, "");
    }
    r
}

/// How an update run ended.
#[derive(Debug, Clone, Copy, PartialEq, Eq, Structural)]
pub enum UpdateOutcome {
    UpToDate,
    Updated,
    Cancelled,
    UnknownMethod,
}

pub open spec fn outcome_message(o: UpdateOutcome) -> Seq<char> {
    match o {
        UpdateOutcome::UpToDate => "Already up to date."@,
        UpdateOutcome::Updated => "Updated successfully."@,
        UpdateOutcome::Cancelled => "Update cancelled."@,
        UpdateOutcome::UnknownMethod => "Update cancelled — unknown installation method."@,
    }
}

impl UpdateOutcome {
    /// The text that `jax update` reports.
    pub fn message(&self) -> (s: String)
        ensures
            s@ == outcome_message(*self),
    {
        match self {
            UpdateOutcome::UpToDate => String::from_str("Already up to date."),
            UpdateOutcome::Updated => String::from_str("Updated successfully."),
            UpdateOutcome::Cancelled => String::from_str("Update cancelled."),
            UpdateOutcome::UnknownMethod => String::from_str(
                "Update cancelled — unknown installation method.",
            ),
        }
    }
}

/// The outcome of a plan once the installer ran successfully (where it
/// had to) and the user answered the switch question (where asked).
pub open spec fn plan_outcome(plan: UpdatePlan, confirmed: bool) -> UpdateOutcome {
    match plan {
        UpdatePlan::AlreadyUpToDate => UpdateOutcome::UpToDate,
        UpdatePlan::RunInstaller { .. } => UpdateOutcome::Updated,
        UpdatePlan::ConfirmSwitch { .. } => if confirmed {
            UpdateOutcome::Updated
        } else {
            UpdateOutcome::Cancelled
        },
        UpdatePlan::UnknownMethod { .. } => UpdateOutcome::UnknownMethod,
    }
}

pub fn finish_update(plan: UpdatePlan, confirmed: bool) -> (o: UpdateOutcome)
    ensures
        o == plan_outcome(plan, confirmed),
{
    match plan {
        UpdatePlan::AlreadyUpToDate => UpdateOutcome::UpToDate,
        UpdatePlan::RunInstaller { .. } => UpdateOutcome::Updated,
        UpdatePlan::ConfirmSwitch { .. } => if confirmed {
            UpdateOutcome::Updated
        } else {
            UpdateOutcome::Cancelled
        },
        UpdatePlan::UnknownMethod { .. } => UpdateOutcome::UnknownMethod,
    }
}

/// Errors of `jax update`.
pub enum UpdateError {
    Failed(String),
}

impl UpdateError {
    /// The error of a check for updates that failed for `reason`.
    pub fn check_failed(reason: &str) -> (r: UpdateError)
        ensures
            r matches UpdateError::Failed(m) && m@ == "Failed to check for updates: "@ + reason@,
    {
        let mut m = String::from_str("Failed to check for updates: ");
        crate::text::push_str(&mut m, reason);
        UpdateError::Failed(m)
    }

    /// The error's text (`{0}`).
    pub fn message(&self) -> (s: String)
        ensures
            s@ == match self {
                UpdateError::Failed(m) => m@,
            },
    {
        match self {
            UpdateError::Failed(m) => m.clone(),
        }
    }
}

/// The version that one line of the release list names: the text after
/// the first `jax-daemon-v` up to the next `"`, on a line that mentions
/// both `"tag_name"` and `jax-daemon-v`.
pub open spec fn release_version_in_line(line: Seq<char>) -> Option<Seq<char>> {
    let prefix = "jax-daemon-v"@;
    if contains_seq(line, "\"tag_name\""@) && contains_seq(line, prefix) {
        match find_seq(line, prefix) {
            Some(st) => match find_from(line, "\""@, st + prefix.len()) {
                Some(e) => Some(line.subrange(st + prefix.len(), e)),
                None => None,
            },
            None => None,
        }
    } else {
        None
    }
}

/// The first version that the lines name, in order.
pub open spec fn first_release_version(lines: Seq<Seq<char>>) -> Option<Seq<char>>
    decreases lines.len(),
{
    if lines.len() == 0 {
        None
    } else {
        match release_version_in_line(lines[0]) {
            Some(v) => Some(v),
            None => first_release_version(lines.drop_first()),
        }
    }
}

pub open spec fn latest_release(body: Seq<char>) -> Result<Seq<char>, Seq<char>> {
    match first_release_version(split_on(body, '\n')) {
        Some(v) => Ok(v),
        None => Err("Could not find jax-daemon release version"@),
    }
}

proof fn lemma_first_release_skip(lines: Seq<Seq<char>>, i: int)
    requires
        0 <= i < lines.len(),
        release_version_in_line(lines[i]) is None,
    ensures
        first_release_version(lines.skip(i)) == first_release_version(lines.skip(i + 1)),
{
    assert(lines.skip(i).drop_first() =~= lines.skip(i + 1));
}

fn release_version_of_line(line: &Vec<char>) -> (r: Option<String>)
    ensures
        match r {
            Some(v) => release_version_in_line(line@) == Some(v@),
            None => release_version_in_line(line@) is None,
        },
{
    let tag = chars_of("\"tag_name\"");
    let prefix = chars_of("jax-daemon-v");
    let quote = chars_of("\"");
    if !(contains_chars(line, &tag) && contains_chars(line, &prefix)) {
        return None;
    }
    match find_chars_from(line, &prefix, 0) {
        None => None,
        Some(st) => {
            proof {
                crate::text::lemma_find_from(line@, prefix@, 0);
                assert(crate::text::occurs_at(line@, prefix@, st as int));
                assert(st + prefix@.len() <= line@.len());
            }
            assert(st + prefix.len() <= line.len());
            let from = st + prefix.len();
            match find_chars_from(line, &quote, from) {
                None => None,
                Some(e) => {
                    proof {
                        crate::text::lemma_find_from(line@, quote@, from as int);
                    }
                    let mut v: Vec<char> = Vec::new();
                    let mut k = from;
                    while k < e
                        invariant
                            from <= k <= e,
                            e <= line.len(),
                            v@ == line@.subrange(from as int, k as int),
                        decreases e - k,
                    {
                        v.push(line[k]);
                        k += 1;
                        assert(v@ =~= line@.subrange(from as int, k as int));
                    }
                    Some(string_of(&v))
                },
            }
        },
    }
}

/// Reads the newest `jax-daemon-v*` release out of the GitHub release list
/// (the JSON text, one field per line): the first line that mentions both
/// `"tag_name"` and `jax-daemon-v` and closes the quote gives the version.
/// Whitespace around a line and carriage returns at its end do not take
/// part in that text, so lines are taken as split at newlines.
pub fn parse_latest_release(body: &str) -> (r: Result<String, String>)
    ensures
        match r {
            Ok(v) => latest_release(body@) == Ok::<Seq<char>, Seq<char>>(v@),
            Err(e) => latest_release(body@) == Err::<Seq<char>, Seq<char>>(e@),
        },
{
    let cs = chars_of(body);
    let lines = split_chars(&cs, 0, '\n');
    assert(cs@.subrange(0, cs@.len() as int) =~= body@);
    let ghost ls = views(lines@);
    let mut i: usize = 0;
    assert(ls.skip(0) =~= ls);
    while i < lines.len()
        invariant
            i <= lines.len(),
            ls == views(lines@),
            ls == split_on(body@, '\n'),
            first_release_version(ls) == first_release_version(ls.skip(i as int)),
        decreases lines.len() - i,
    {
        assert(ls[i as int] == lines@[i as int]@);
        match release_version_of_line(&lines[i]) {
            Some(v) => {
                assert(ls.skip(i as int)[0] == ls[i as int]);
                return Ok(v);
            },
            None => {
                proof {
                    lemma_first_release_skip(ls, i as int);
                }
            },
        }
        i += 1;
    }
    assert(ls.skip(i as int).len() == 0);
    Err(String::from_str("Could not find jax-daemon release version"))
}

proof fn lemma_contains_iff_occurs(h: Seq<char>, n: Seq<char>)
    ensures
        contains_seq(h, n) <==> exists|k: int|
            0 <= k && k + n.len() <= h.len() && #[trigger] h.subrange(k, k + n.len()) == n,
{
    crate::text::lemma_find_from(h, n, 0);
    if exists|k: int| 0 <= k && k + n.len() <= h.len() && #[trigger] h.subrange(k, k + n.len()) == n {
        let k = choose|k: int| 0 <= k && k + n.len() <= h.len() && #[trigger] h.subrange(k, k + n.len()) == n;
        assert(crate::text::occurs_at(h, n, k));
    }
}

/// How `jax update` classifies an executable by its path: a path with a
/// `/.local/bin/` directory in it was installed by the install script;
/// else one with `/.cargo/bin/` by `cargo install`; else one with
/// `/target/` is a source build; anything else is unknown.
pub proof fn lemma_install_method_by_path(path: Seq<char>)
    ensures
        (exists|k: int| 0 <= k && k + 12 <= path.len() && #[trigger] path.subrange(k, k + 12) == "/.local/bin/"@)
            ==> install_method_of(path) == InstallMethod::Script,
        !(exists|k: int| 0 <= k && k + 12 <= path.len() && #[trigger] path.subrange(k, k + 12) == "/.local/bin/"@)
            && (exists|k: int| 0 <= k && k + 12 <= path.len() && #[trigger] path.subrange(k, k + 12) == "/.cargo/bin/"@)
            ==> install_method_of(path) == InstallMethod::Cargo,
        !(exists|k: int| 0 <= k && k + 12 <= path.len() && #[trigger] path.subrange(k, k + 12) == "/.local/bin/"@)
            && !(exists|k: int| 0 <= k && k + 12 <= path.len() && #[trigger] path.subrange(k, k + 12) == "/.cargo/bin/"@)
            && (exists|k: int| 0 <= k && k + 8 <= path.len() && #[trigger] path.subrange(k, k + 8) == "/target/"@)
            ==> install_method_of(path) == InstallMethod::Source,
        !(exists|k: int| 0 <= k && k + 12 <= path.len() && #[trigger] path.subrange(k, k + 12) == "/.local/bin/"@)
            && !(exists|k: int| 0 <= k && k + 12 <= path.len() && #[trigger] path.subrange(k, k + 12) == "/.cargo/bin/"@)
            && !(exists|k: int| 0 <= k && k + 8 <= path.len() && #[trigger] path.subrange(k, k + 8) == "/target/"@)
            ==> install_method_of(path) == InstallMethod::Unknown,
{
    reveal_strlit("/.local/bin/");
    reveal_strlit("/.cargo/bin/");
    reveal_strlit("/target/");
    lemma_contains_iff_occurs(path, "/.local/bin/"@);
    lemma_contains_iff_occurs(path, "/.cargo/bin/"@);
    lemma_contains_iff_occurs(path, "/target/"@);
}

} // verus!
