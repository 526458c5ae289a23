use rand::Rng;
use vstd::prelude::*;

use crate::outcome::texts;

verus! {

/// The number of characters of a job's identifier.
pub const TOKEN_LEN: usize = 20;

/// Whether `b` is an ASCII letter or digit.
pub open spec fn is_alphanumeric_byte(b: u8) -> bool {
    (0x41 <= b <= 0x5a) || (0x61 <= b <= 0x7a) || (0x30 <= b <= 0x39)
}

/// Whether `c` may stand in a job's identifier: a lower-case ASCII letter
/// or a digit.
pub open spec fn is_token_char(c: char) -> bool {
    ('a' <= c <= 'z') || ('0' <= c <= '9')
}

/// Whether `t` is a job's identifier.
pub open spec fn is_token(t: Seq<char>) -> bool {
    t.len() == TOKEN_LEN && forall|i: int| 0 <= i < t.len() ==> is_token_char(#[trigger] t[i])
}

/// The lower-case form of the ASCII byte `b`; other bytes stay as they are.
pub open spec fn ascii_lower_spec(b: u8) -> u8 {
    if 0x41 <= b <= 0x5a { (b + 0x20) as u8 } else { b }
}

/// Relies on rand's `Alphanumeric` distribution sampled from `thread_rng`:
/// it yields one byte out of `A-Z`, `a-z` and `0-9`.
#[verifier::external_body]
fn random_alphanumeric() -> (b: u8)
    ensures
        is_alphanumeric_byte(b),
{
    rand::thread_rng().sample(rand::distributions::Alphanumeric)
}

/// Relies on std's `String::push`: the character is appended at the end.
#[verifier::external_body]
fn push_char(s: &mut String, c: char)
    ensures
        final(s)@ == old(s)@.push(c),
{
    s.push(c)
}

/// The lower-case form of the ASCII byte `b`.
pub fn ascii_lower(b: u8) -> (r: u8)
    ensures
        r == ascii_lower_spec(b),
{
    if 0x41 <= b && b <= 0x5a {
        b + 0x20
    } else {
        b
    }
}

/// A fresh random identifier: `TOKEN_LEN` lower-case ASCII letters and
/// digits.
pub fn new_token() -> (t: String)
    ensures
        is_token(t@),
{
    let mut t = String::new();
    let mut i: usize = 0;
    while i < TOKEN_LEN
        invariant
            i <= TOKEN_LEN,
            t@.len() == i,
            forall|k: int| 0 <= k < t@.len() ==> is_token_char(#[trigger] t@[k]),
        decreases TOKEN_LEN - i,
    {
        let b = ascii_lower(random_alphanumeric());
        let c = b as char;
        let ghost old_t = t@;
        push_char(&mut t, c);
        assert forall|k: int| 0 <= k < t@.len() implies is_token_char(#[trigger] t@[k]) by {
            if k < old_t.len() {
                assert(t@[k] == old_t[k]);
            }
        }
        i = i + 1;
    }
    t
}

/// The name of the image and instance of the job whose identifier is `t`.
pub open spec fn container_name_of(t: Seq<char>) -> Seq<char> {
    "codex_"@ + t
}

/// The workspace directory of the job whose identifier is `t`.
pub open spec fn workspace_of(t: Seq<char>) -> Seq<char> {
    "/tmp/"@ + container_name_of(t) + "/"@
}

/// The file name of the build descriptor inside a workspace.
pub open spec fn descriptor_name() -> Seq<char> {
    "Dockerfile"@
}

/// The file name of the submitted code inside a workspace.
pub open spec fn script_name() -> Seq<char> {
    "script.py"@
}

/// One job: its identifier and the names derived from it.
pub struct Job {
    pub token: String,
    pub container_name: String,
    pub workspace: String,
}

impl Job {
    /// Whether the names are those derived from the identifier.
    pub open spec fn wf(&self) -> bool {
        &&& self.container_name@ == container_name_of(self.token@)
        &&& self.workspace@ == workspace_of(self.token@)
    }

    /// The job whose identifier is `token`.
    pub fn for_token(token: String) -> (j: Job)
        ensures
            j.wf(),
            j.token@ == token@,
    {
        let mut container_name = String::from_str("codex_");
        container_name.append(token.as_str());
        let mut workspace = String::from_str("/tmp/");
        workspace.append(container_name.as_str());
        workspace.append("/");
        Job { token, container_name, workspace }
    }

    /// A job with a fresh random identifier.
    pub fn fresh() -> (j: Job)
        ensures
            j.wf(),
            is_token(j.token@),
    {
        Job::for_token(new_token())
    }

    /// The path of the build descriptor.
    pub fn descriptor_path(&self) -> (p: String)
        requires
            self.wf(),
        ensures
            p@ == workspace_of(self.token@) + descriptor_name(),
    {
        let mut p = self.workspace.clone();
        p.append("Dockerfile");
        p
    }

    /// The path of the submitted code.
    pub fn script_path(&self) -> (p: String)
        requires
            self.wf(),
        ensures
            p@ == workspace_of(self.token@) + script_name(),
    {
        let mut p = self.workspace.clone();
        p.append("script.py");
        p
    }

    /// The engine arguments that build the job's image from its workspace.
    pub fn build_args(&self) -> (a: Vec<String>)
        requires
            self.wf(),
        ensures
            texts(a@) == seq!["build"@, "-t"@, container_name_of(self.token@), workspace_of(self.token@)],
    {
        let a = vec![
            String::from_str("build"),
            String::from_str("-t"),
            self.container_name.clone(),
            self.workspace.clone(),
        ];
        assert(texts(a@) =~= seq!["build"@, "-t"@, container_name_of(self.token@), workspace_of(self.token@)]);
        a
    }

    /// The engine arguments that run an instance of the job's image.
    pub fn run_args(&self) -> (a: Vec<String>)
        requires
            self.wf(),
        ensures
            texts(a@) == seq!["run"@, "-it"@, "--rm"@, container_name_of(self.token@)],
    {
        let a = vec![
            String::from_str("run"),
            String::from_str("-it"),
            String::from_str("--rm"),
            self.container_name.clone(),
        ];
        assert(texts(a@) =~= seq!["run"@, "-it"@, "--rm"@, container_name_of(self.token@)]);
        a
    }

    /// The engine arguments that force-remove the job's instance.
    pub fn remove_instance_args(&self) -> (a: Vec<String>)
        requires
            self.wf(),
        ensures
            texts(a@) == seq!["rm"@, "-f"@, container_name_of(self.token@)],
    {
        let a = vec![String::from_str("rm"), String::from_str("-f"), self.container_name.clone()];
        assert(texts(a@) =~= seq!["rm"@, "-f"@, container_name_of(self.token@)]);
        a
    }

    /// The engine arguments that force-remove the job's image.
    pub fn remove_image_args(&self) -> (a: Vec<String>)
        requires
            self.wf(),
        ensures
            texts(a@) == seq!["rmi"@, "-f"@, container_name_of(self.token@)],
    {
        let a = vec![String::from_str("rmi"), String::from_str("-f"), self.container_name.clone()];
        assert(texts(a@) =~= seq!["rmi"@, "-f"@, container_name_of(self.token@)]);
        a
    }
}

/// Two jobs with different identifiers share no engine name and no
/// workspace, and neither workspace lies inside the other, so tearing one
/// down never touches the other's artifacts.
pub proof fn lemma_distinct_jobs(t1: Seq<char>, t2: Seq<char>)
    requires
        is_token(t1),
        is_token(t2),
        t1 != t2,
    ensures
        container_name_of(t1) != container_name_of(t2),
        workspace_of(t1) != workspace_of(t2),
        !workspace_of(t2).is_prefix_of(workspace_of(t1)),
{
    reveal_strlit("codex_");
    reveal_strlit("/tmp/");
    reveal_strlit("/");
    let c1 = container_name_of(t1);
    let c2 = container_name_of(t2);
    let w1 = workspace_of(t1);
    let w2 = workspace_of(t2);
    if c1 == c2 {
        assert(t1 =~= c1.subrange(6, c1.len() as int));
        assert(t2 =~= c2.subrange(6, c2.len() as int));
    }
    if w2.is_prefix_of(w1) {
        assert(w1.len() == w2.len());
        assert(w1 =~= w2);
    }
    if w1 == w2 {
        assert(c1 =~= w1.subrange(5, w1.len() - 1));
        assert(c2 =~= w2.subrange(5, w2.len() - 1));
        assert(t1 =~= c1.subrange(6, c1.len() as int));
        assert(t2 =~= c2.subrange(6, c2.len() as int));
    }
}

} // verus!
