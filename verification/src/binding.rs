//! The binding record: how one document is tied to a remote history, and the
//! text in which the sidecar directory keeps it.

use crate::paths::{
    chars_of, is_rooted, mount_dir, mount_of, normalize_path_in_repo, normalized, sidecar_dir,
    sidecar_of, working_tree_dir, working_tree_of, SEPARATOR,
};
use vstd::prelude::*;
use vstd::string::*;

verus! {

/// The end of each line of a stored record.
pub const LINE_END: char = '\n';

/// The mark that begins an escaped character in a stored record.
pub const ESCAPE: char = '\\';

/// What follows the escape mark in place of a line end.
pub const LINE_END_CODE: char = 'n';

/// The mark in front of a stored branch name.
pub const BRANCH_GIVEN: char = '+';

/// The line that stands for "the remote's default branch".
pub const BRANCH_DEFAULT: char = '-';

/// How a document is bound to a remote history.
#[derive(Clone, Debug, PartialEq, Eq)]
pub struct BindingRecord {
    /// Path to the packed document.
    pub document_path: String,
    /// Where the remote history lives.
    pub repo_url: String,
    /// The branch to work on; `None` is the remote's default branch.
    pub branch: Option<String>,
    /// The sub-path of the working tree that mirrors the document.
    pub path_in_repo: String,
    /// Whether an existing sidecar or document may be overwritten.
    pub force: bool,
}

/// A binding record as a mathematical value.
pub struct BindingView {
    pub document_path: Seq<char>,
    pub repo_url: Seq<char>,
    pub branch: Option<Seq<char>>,
    pub path_in_repo: Seq<char>,
    pub force: bool,
}

/// The characters of an optional string.
pub open spec fn text_of(s: Option<String>) -> Option<Seq<char>> {
    match s {
        Some(t) => Some(t@),
        None => None,
    }
}

impl View for BindingRecord {
    type V = BindingView;

    open spec fn view(&self) -> BindingView {
        BindingView {
            document_path: self.document_path@,
            repo_url: self.repo_url@,
            branch: text_of(self.branch),
            path_in_repo: self.path_in_repo@,
            force: self.force,
        }
    }
}

impl BindingView {
    /// The sub-path is stored with a leading separator.
    pub open spec fn well_formed(self) -> bool {
        is_rooted(self.path_in_repo)
    }

    /// The record with its sub-path in the stored form.
    pub open spec fn settled(self) -> BindingView {
        BindingView { path_in_repo: normalized(self.path_in_repo), ..self }
    }

    /// The sidecar directory is the document path with the fixed suffix.
    pub open spec fn sidecar_dir(self) -> Seq<char> {
        sidecar_of(self.document_path)
    }

    /// The working tree inside the sidecar directory.
    pub open spec fn working_tree(self) -> Seq<char> {
        working_tree_of(self.document_path)
    }

    /// The directory of the working tree that mirrors the document.
    pub open spec fn mount(self) -> Seq<char> {
        mount_of(self.document_path, self.path_in_repo)
    }

    /// The stored text: the remote, the branch and the sub-path, a line
    /// each, with line ends and escape marks inside them escaped.
    pub open spec fn encoded(self) -> Seq<char> {
        escaped(self.repo_url) + seq![LINE_END] + branch_line(self.branch) + seq![LINE_END]
            + escaped(self.path_in_repo) + seq![LINE_END]
    }

    /// What decoding the stored text of this record gives back: the record
    /// itself, bound to `document` and without leave to overwrite.
    pub open spec fn restored(self, document: Seq<char>) -> BindingView {
        BindingView { document_path: document, force: false, ..self }
    }

    /// Whether `text` is the stored text of this well-formed record.
    pub open spec fn stored_as(self, text: Seq<char>) -> bool {
        self.well_formed() && self.encoded() == text
    }
}

/// The record that `text` stores for `document`, where it stores one.
pub open spec fn decoded(text: Seq<char>, document: Seq<char>) -> Option<BindingView> {
    if exists|v: BindingView| v.stored_as(text) {
        Some((choose|v: BindingView| v.stored_as(text)).restored(document))
    } else {
        None
    }
}

/// An optional record as a mathematical value.
pub open spec fn record_of(record: Option<BindingRecord>) -> Option<BindingView> {
    match record {
        Some(r) => Some(r@),
        None => None,
    }
}

/// The record of a document of which only the path is known yet: no remote,
/// the remote's default branch, and the root of the working tree.
pub open spec fn unbound(document: Seq<char>, force: bool) -> BindingView {
    BindingView {
        document_path: document,
        repo_url: Seq::empty(),
        branch: None,
        path_in_repo: seq![SEPARATOR],
        force,
    }
}

/// How one character is stored: a line end and the escape mark as two
/// characters that begin with the escape mark, any other as itself.
pub open spec fn escape_of(c: char) -> Seq<char> {
    if c == LINE_END {
        seq![ESCAPE, LINE_END_CODE]
    } else if c == ESCAPE {
        seq![ESCAPE, ESCAPE]
    } else {
        seq![c]
    }
}

/// How a field is stored: character by character.
pub open spec fn escaped(s: Seq<char>) -> Seq<char>
    decreases s.len(),
{
    if s.len() == 0 {
        Seq::empty()
    } else {
        escape_of(s[0]) + escaped(s.drop_first())
    }
}

/// The line that stores a branch choice.
pub open spec fn branch_line(branch: Option<Seq<char>>) -> Seq<char> {
    match branch {
        Some(b) => seq![BRANCH_GIVEN] + escaped(b),
        None => seq![BRANCH_DEFAULT],
    }
}

/// Storing one more character adds what stores it at the end.
pub proof fn lemma_escaped_push(s: Seq<char>, c: char)
    ensures
        escaped(s.push(c)) == escaped(s) + escape_of(c),
    decreases s.len(),
{
    if s.len() == 0 {
        assert(s.push(c).drop_first() =~= Seq::<char>::empty());
        assert(escaped(s.push(c).drop_first()) =~= Seq::<char>::empty());
        assert(escaped(s) =~= Seq::<char>::empty());
        assert(escaped(s.push(c)) =~= escaped(s) + escape_of(c));
    } else {
        assert(s.push(c).drop_first() =~= s.drop_first().push(c));
        lemma_escaped_push(s.drop_first(), c);
        assert(escaped(s.push(c)) =~= escaped(s) + escape_of(c));
    }
}

/// A stored field holds no line end, and is empty only for an empty field.
pub proof fn lemma_escaped_is_one_line(s: Seq<char>)
    ensures
        !escaped(s).contains(LINE_END),
        escaped(s).len() >= s.len(),
    decreases s.len(),
{
    if s.len() > 0 {
        lemma_escaped_is_one_line(s.drop_first());
        let head = escape_of(s[0]);
        let rest = escaped(s.drop_first());
        if escaped(s).contains(LINE_END) {
            let k = choose|k: int| 0 <= k < escaped(s).len() && escaped(s)[k] == LINE_END;
            if k >= head.len() {
                assert(rest[k - head.len()] == LINE_END);
                assert(rest.contains(LINE_END));
            }
        }
    }
}

/// A stored text that begins with a stored field stores a field that begins
/// with that field, and goes on with what stores the rest.
pub proof fn lemma_escaped_prefix(o: Seq<char>, s: Seq<char>, tail: Seq<char>)
    requires
        escaped(s) == escaped(o) + tail,
    ensures
        o.len() <= s.len(),
        s.subrange(0, o.len() as int) == o,
        escaped(s.subrange(o.len() as int, s.len() as int)) == tail,
    decreases o.len(),
{
    if o.len() == 0 {
        assert(s.subrange(0, 0) =~= o);
        assert(s.subrange(0, s.len() as int) =~= s);
        assert(escaped(o) + tail =~= tail);
    } else {
        let x = escaped(s);
        let oh = escape_of(o[0]);
        let ot = escaped(o.drop_first());
        assert(x == (oh + ot) + tail);
        assert(x.len() >= 1);
        assert(s.len() > 0);
        let sh = escape_of(s[0]);
        let st = escaped(s.drop_first());
        assert(x == sh + st);
        assert(x[0] == sh[0]);
        assert(x[0] == oh[0]);
        if oh.len() == 2 {
            assert(sh.len() == 2);
            assert(x[1] == sh[1]);
            assert(x[1] == oh[1]);
        }
        assert(s[0] == o[0]);
        assert(st =~= x.subrange(sh.len() as int, x.len() as int));
        assert(ot + tail =~= x.subrange(oh.len() as int, x.len() as int));
        lemma_escaped_prefix(o.drop_first(), s.drop_first(), tail);
        let od = o.drop_first();
        let sd = s.drop_first();
        assert(s.subrange(0, o.len() as int) =~= o) by {
            assert forall|i: int| 0 <= i < o.len() implies s[i] == o[i] by {
                if i > 0 {
                    assert(sd.subrange(0, od.len() as int)[i - 1] == od[i - 1]);
                }
            }
        }
        assert(s.subrange(o.len() as int, s.len() as int) =~= sd.subrange(
            od.len() as int,
            sd.len() as int,
        ));
    }
}

/// Two fields that are stored alike are the same field.
pub proof fn lemma_escaped_injective(a: Seq<char>, b: Seq<char>)
    requires
        escaped(a) == escaped(b),
    ensures
        a == b,
{
    assert(escaped(b) =~= escaped(a) + Seq::<char>::empty());
    lemma_escaped_prefix(a, b, Seq::<char>::empty());
    let rest = b.subrange(a.len() as int, b.len() as int);
    lemma_escaped_is_one_line(rest);
    assert(rest.len() == 0);
    assert(b =~= b.subrange(0, a.len() as int));
}

/// Where the three line ends of a stored record stand, and what lies between.
pub proof fn lemma_encoded_shape(v: BindingView)
    ensures
        ({
            let t = v.encoded();
            let a = escaped(v.repo_url).len() as int;
            let b = a + 1 + branch_line(v.branch).len();
            let c = b + 1 + escaped(v.path_in_repo).len();
            &&& t.len() == c + 1
            &&& t[a] == LINE_END
            &&& t[b] == LINE_END
            &&& t[c] == LINE_END
            &&& forall|j: int| 0 <= j < t.len() && j != a && j != b && j != c ==> t[j] != LINE_END
            &&& t.subrange(0, a) == escaped(v.repo_url)
            &&& t.subrange(a + 1, b) == branch_line(v.branch)
            &&& t.subrange(b + 1, c) == escaped(v.path_in_repo)
        }),
{
    let t = v.encoded();
    let u = escaped(v.repo_url);
    let l = branch_line(v.branch);
    let p = escaped(v.path_in_repo);
    let a = u.len() as int;
    let b = a + 1 + l.len();
    let c = b + 1 + p.len();
    lemma_escaped_is_one_line(v.repo_url);
    lemma_escaped_is_one_line(v.path_in_repo);
    assert(!l.contains(LINE_END)) by {
        if l.contains(LINE_END) {
            let k = choose|k: int| 0 <= k < l.len() && l[k] == LINE_END;
            match v.branch {
                Some(name) => {
                    lemma_escaped_is_one_line(name);
                    assert(k > 0);
                    assert(escaped(name)[k - 1] == LINE_END);
                    assert(escaped(name).contains(LINE_END));
                },
                None => {},
            }
        }
    }
    assert forall|j: int| 0 <= j < t.len() && j != a && j != b && j != c implies t[j]
        != LINE_END by {
        if j < a {
            assert(t[j] == u[j]);
            assert(u.contains(u[j]));
        } else if j < b {
            assert(t[j] == l[j - a - 1]);
            assert(l.contains(l[j - a - 1]));
        } else {
            assert(t[j] == p[j - b - 1]);
            assert(p.contains(p[j - b - 1]));
        }
    }
    assert(t.subrange(0, a) =~= u);
    assert(t.subrange(a + 1, b) =~= l);
    assert(t.subrange(b + 1, c) =~= p);
}

/// Appends one character with `String::push`.
///
/// Trusted: the string afterwards is the string before with the character
/// at its end.
#[verifier::external_body]
fn push_char(text: &mut String, c: char)
    ensures
        final(text)@ == old(text)@.push(c),
{
    text.push(c)
}

/// Appends to `text` what stores `field`.
fn append_escaped(text: &mut String, field: &str)
    ensures
        final(text)@ == old(text)@ + escaped(field@),
{
    let cs = chars_of(field);
    let ghost start = text@;
    let mut i: usize = 0;
    assert(cs@.subrange(0, 0) =~= Seq::<char>::empty());
    assert(start + escaped(cs@.subrange(0, 0)) =~= start);
    while i < cs.len()
        invariant
            i <= cs.len(),
            cs@ == field@,
            text@ == start + escaped(cs@.subrange(0, i as int)),
        decreases cs.len() - i,
    {
        let c = cs[i];
        proof {
            lemma_escaped_push(cs@.subrange(0, i as int), c);
            assert(cs@.subrange(0, i + 1) =~= cs@.subrange(0, i as int).push(c));
            reveal_strlit("\\n");
            reveal_strlit("\\\\");
            assert("\\n"@ =~= seq![ESCAPE, LINE_END_CODE]);
            assert("\\\\"@ =~= seq![ESCAPE, ESCAPE]);
        }
        let ghost before = text@;
        if c == LINE_END {
            text.append("\\n");
        } else if c == ESCAPE {
            text.append("\\\\");
        } else {
            push_char(text, c);
            assert(before.push(c) =~= before + seq![c]);
        }
        assert(text@ =~= start + escaped(cs@.subrange(0, i + 1)));
        i += 1;
    }
    assert(cs@.subrange(0, i as int) =~= cs@);
}

/// Reads the field that the characters from `from` up to `to` store, where
/// they store one.
fn unescape(cs: &Vec<char>, from: usize, to: usize) -> (out: Option<String>)
    requires
        from <= to <= cs.len(),
    ensures
        match out {
            Some(field) => escaped(field@) == cs@.subrange(from as int, to as int),
            None => forall|s: Seq<char>| escaped(s) != cs@.subrange(from as int, to as int),
        },
{
    let ghost line = cs@.subrange(from as int, to as int);
    let mut field = String::new();
    let mut i: usize = from;
    assert(cs@.subrange(from as int, from as int) =~= Seq::<char>::empty());
    while i < to
        invariant
            from <= i <= to <= cs.len(),
            line == cs@.subrange(from as int, to as int),
            escaped(field@) == cs@.subrange(from as int, i as int),
        decreases to - i,
    {
        let c = cs[i];
        let ghost tail = cs@.subrange(i as int, to as int);
        proof {
            assert(line =~= escaped(field@) + tail);
        }
        let mut taken: usize = 1;
        let mut read: Option<char> = None;
        if c == ESCAPE {
            if i + 1 < to {
                let d = cs[i + 1];
                if d == ESCAPE {
                    read = Some(ESCAPE);
                    taken = 2;
                } else if d == LINE_END_CODE {
                    read = Some(LINE_END);
                    taken = 2;
                }
            }
        } else if c != LINE_END {
            read = Some(c);
        }
        match read {
            Some(r) => {
                proof {
                    lemma_escaped_push(field@, r);
                    assert(cs@.subrange(from as int, i + taken) =~= cs@.subrange(
                        from as int,
                        i as int,
                    ) + escape_of(r));
                }
                push_char(&mut field, r);
                i += taken;
            },
            None => {
                proof {
                    assert forall|s: Seq<char>| escaped(s) != line by {
                        if escaped(s) == line {
                            lemma_escaped_prefix(field@, s, tail);
                            let rest = s.subrange(field@.len() as int, s.len() as int);
                            assert(escaped(rest) == tail);
                            assert(tail[0] == c);
                            assert(rest.len() > 0);
                            let head = escape_of(rest[0]);
                            assert(tail == head + escaped(rest.drop_first()));
                            assert(tail[0] == head[0]);
                            if c == ESCAPE {
                                assert(head.len() == 2);
                                assert(tail[1] == head[1]);
                                assert(tail[1] == cs[i + 1]);
                            }
                        }
                    }
                }
                return None;
            },
        }
    }
    Some(field)
}

/// The first line end at or after `from`, or the length where there is none.
fn find_line_end(cs: &Vec<char>, from: usize) -> (k: usize)
    requires
        from <= cs.len(),
    ensures
        from <= k <= cs.len(),
        forall|j: int| from <= j < k ==> cs[j] != LINE_END,
        k < cs.len() ==> cs[k as int] == LINE_END,
{
    let mut k: usize = from;
    while k < cs.len() && cs[k] != LINE_END
        invariant
            from <= k <= cs.len(),
            forall|j: int| from <= j < k ==> cs[j] != LINE_END,
        decreases cs.len() - k,
    {
        k += 1;
    }
    k
}

impl BindingRecord {
    /// Binds `document` to `branch` of the history at `repo_url`, mirrored at
    /// `path_in_repo`, which is brought to its stored form.
    pub fn new(
        document: &str,
        repo_url: &str,
        branch: Option<&str>,
        path_in_repo: &str,
        force: bool,
    ) -> (out: BindingRecord)
        ensures
            out@.well_formed(),
            out@ == (BindingView {
                document_path: document@,
                repo_url: repo_url@,
                branch: match branch {
                    Some(b) => Some(b@),
                    None => None,
                },
                path_in_repo: normalized(path_in_repo@),
                force,
            }),
    {
        BindingRecord {
            document_path: String::from_str(document),
            repo_url: String::from_str(repo_url),
            branch: match branch {
                Some(b) => Some(String::from_str(b)),
                None => None,
            },
            path_in_repo: normalize_path_in_repo(path_in_repo),
            force,
        }
    }

    /// The record with its sub-path in the stored form; a well-formed
    /// record is unchanged.
    pub fn settle(self) -> (out: BindingRecord)
        ensures
            out@ == self@.settled(),
            out@.well_formed(),
            self@.well_formed() ==> out@ == self@,
    {
        let path_in_repo = normalize_path_in_repo(self.path_in_repo.as_str());
        let mut out = self;
        out.path_in_repo = path_in_repo;
        out
    }

    /// The record of `document` before its binding has been read.
    pub fn unbound(document: &str, force: bool) -> (out: BindingRecord)
        ensures
            out@ == unbound(document@, force),
            out@.well_formed(),
    {
        proof {
            reveal_strlit("/");
            assert("/"@ =~= seq![SEPARATOR]);
        }
        BindingRecord {
            document_path: String::from_str(document),
            repo_url: String::new(),
            branch: None,
            path_in_repo: String::from_str("/"),
            force,
        }
    }

    /// The sidecar directory of the bound document.
    pub fn sidecar_dir(&self) -> (out: String)
        ensures
            out@ == self@.sidecar_dir(),
    {
        sidecar_dir(self.document_path.as_str())
    }

    /// The working tree inside the sidecar directory.
    pub fn working_tree(&self) -> (out: String)
        ensures
            out@ == self@.working_tree(),
    {
        working_tree_dir(self.document_path.as_str())
    }

    /// The directory of the working tree that mirrors the document.
    pub fn mount(&self) -> (out: String)
        ensures
            out@ == self@.mount(),
    {
        mount_dir(self.document_path.as_str(), self.path_in_repo.as_str())
    }

    /// The text to store for this record.
    pub fn encode(&self) -> (out: String)
        ensures
            out@ == self@.encoded(),
    {
        proof {
            reveal_strlit("\n");
            reveal_strlit("+");
            reveal_strlit("-");
            assert("\n"@ =~= seq![LINE_END]);
            assert("+"@ =~= seq![BRANCH_GIVEN]);
            assert("-"@ =~= seq![BRANCH_DEFAULT]);
        }
        let mut text = String::new();
        append_escaped(&mut text, self.repo_url.as_str());
        text.append("\n");
        match &self.branch {
            Some(b) => {
                text.append("+");
                append_escaped(&mut text, b.as_str());
            },
            None => {
                text.append("-");
            },
        }
        text.append("\n");
        append_escaped(&mut text, self.path_in_repo.as_str());
        text.append("\n");
        assert(text@ =~= self@.encoded());
        text
    }

    /// Reads the stored text of the record of `document`.
    ///
    /// Gives a record exactly when `text` is the stored text of a well-formed
    /// record, and then that record, without leave to overwrite.
    pub fn decode(text: &str, document: &str) -> (out: Option<BindingRecord>)
        ensures
            record_of(out) == decoded(text@, document@),
            out matches Some(r) ==> r@.well_formed(),
    {
        let cs = chars_of(text);
        let (a, b, c) = match split_lines(&cs) {
            Some(ends) => ends,
            None => {
                return None;
            },
        };
        let repo_url = unescape(&cs, 0, a);
        let branch = read_branch(&cs, a + 1, b);
        let path_in_repo = unescape(&cs, b + 1, c);
        let rooted = match &path_in_repo {
            Some(path) => !path.as_str().is_empty() && path.as_str().get_char(0) == SEPARATOR,
            None => false,
        };
        if repo_url.is_none() || branch.is_none() || !rooted {
            proof {
                assert forall|v: BindingView| !v.stored_as(text@) by {
                    if v.stored_as(text@) {
                        lemma_lines_of_record(v, a as int, b as int, c as int);
                        if let Some(path) = path_in_repo {
                            lemma_escaped_injective(v.path_in_repo, path@);
                        }
                    }
                }
            }
            return None;
        }
        let record = BindingRecord {
            document_path: String::from_str(document),
            repo_url: repo_url.unwrap(),
            branch: branch.unwrap(),
            path_in_repo: path_in_repo.unwrap(),
            force: false,
        };
        proof {
            let v = record@;
            lemma_record_of_lines(v, text@, a as int, b as int, c as int);
            assert(v.stored_as(text@));
            let w = choose|w: BindingView| w.stored_as(text@);
            lemma_encoding_is_injective(v, w);
            assert(w.restored(document@) == v);
        }
        Some(record)
    }
}

/// Whether `t` is made of three lines, which end at `a`, `b` and `c`.
pub open spec fn lines_end_at(t: Seq<char>, a: int, b: int, c: int) -> bool {
    &&& 0 <= a < b < c
    &&& c + 1 == t.len()
    &&& t[a] == LINE_END
    &&& t[b] == LINE_END
    &&& t[c] == LINE_END
    &&& forall|j: int| 0 <= j < t.len() && j != a && j != b && j != c ==> t[j] != LINE_END
}

/// The three lines of a stored record are its stored fields.
pub proof fn lemma_lines_of_record(v: BindingView, a: int, b: int, c: int)
    requires
        lines_end_at(v.encoded(), a, b, c),
    ensures
        escaped(v.repo_url) == v.encoded().subrange(0, a),
        branch_line(v.branch) == v.encoded().subrange(a + 1, b),
        escaped(v.path_in_repo) == v.encoded().subrange(b + 1, c),
{
    lemma_encoded_shape(v);
    let t = v.encoded();
    let a2 = escaped(v.repo_url).len() as int;
    let b2 = a2 + 1 + branch_line(v.branch).len();
    let c2 = b2 + 1 + escaped(v.path_in_repo).len();
    assert(c2 == c);
    assert(a2 == a) by {
        if a2 != a {
            assert(t[a2] == LINE_END);
        }
    }
    assert(b2 == b) by {
        if b2 != b {
            assert(t[b2] == LINE_END);
        }
    }
}

/// Three lines that are the stored fields of a record make its stored text.
pub proof fn lemma_record_of_lines(v: BindingView, t: Seq<char>, a: int, b: int, c: int)
    requires
        lines_end_at(t, a, b, c),
        escaped(v.repo_url) == t.subrange(0, a),
        branch_line(v.branch) == t.subrange(a + 1, b),
        escaped(v.path_in_repo) == t.subrange(b + 1, c),
    ensures
        v.encoded() == t,
{
    assert(v.encoded() =~= t);
}

/// Finds the ends of the three lines of a stored record.
fn split_lines(cs: &Vec<char>) -> (out: Option<(usize, usize, usize)>)
    ensures
        match out {
            Some((a, b, c)) => lines_end_at(cs@, a as int, b as int, c as int),
            None => forall|v: BindingView| v.encoded() != cs@,
        },
{
    let n = cs.len();
    let a = find_line_end(cs, 0);
    if a >= n {
        proof {
            assert forall|v: BindingView| v.encoded() != cs@ by {
                lemma_encoded_shape(v);
            }
        }
        return None;
    }
    let b = find_line_end(cs, a + 1);
    if b >= n {
        proof {
            assert forall|v: BindingView| v.encoded() != cs@ by {
                lemma_encoded_shape(v);
            }
        }
        return None;
    }
    let c = find_line_end(cs, b + 1);
    if c >= n || c + 1 != n {
        proof {
            assert forall|v: BindingView| v.encoded() != cs@ by {
                lemma_encoded_shape(v);
            }
        }
        return None;
    }
    Some((a, b, c))
}

/// Reads the branch choice that the characters from `from` up to `to`
/// store, where they store one.
fn read_branch(cs: &Vec<char>, from: usize, to: usize) -> (out: Option<Option<String>>)
    requires
        from <= to <= cs.len(),
    ensures
        match out {
            Some(branch) => branch_line(text_of(branch)) == cs@.subrange(from as int, to as int),
            None => forall|branch: Option<Seq<char>>|
                branch_line(branch) != cs@.subrange(from as int, to as int),
        },
{
    let ghost line = cs@.subrange(from as int, to as int);
    if from == to {
        proof {
            assert forall|branch: Option<Seq<char>>| branch_line(branch) != line by {
                assert(branch_line(branch).len() >= 1);
            }
        }
        return None;
    }
    let mark = cs[from];
    assert(line[0] == mark);
    if mark == BRANCH_DEFAULT && to == from + 1 {
        assert(line =~= seq![BRANCH_DEFAULT]);
        return Some(None);
    }
    if mark != BRANCH_GIVEN {
        proof {
            assert forall|branch: Option<Seq<char>>| branch_line(branch) != line by {
                assert(branch_line(branch)[0] == BRANCH_GIVEN || branch_line(branch) == seq![
                    BRANCH_DEFAULT,
                ]);
            }
        }
        return None;
    }
    assert(line.subrange(1, line.len() as int) =~= cs@.subrange(from + 1, to as int));
    match unescape(cs, from + 1, to) {
        Some(name) => {
            assert(branch_line(Some(name@)) =~= line);
            Some(Some(name))
        },
        None => {
            proof {
                assert forall|branch: Option<Seq<char>>| branch_line(branch) != line by {
                    if let Some(name) = branch {
                        if branch_line(branch) == line {
                            assert(escaped(name) =~= line.subrange(1, line.len() as int));
                        }
                    }
                }
            }
            None
        },
    }
}

/// Two records with the same stored text have the same remote, branch and
/// sub-path.
pub proof fn lemma_encoding_is_injective(v: BindingView, w: BindingView)
    requires
        v.encoded() == w.encoded(),
    ensures
        v.repo_url == w.repo_url,
        v.branch == w.branch,
        v.path_in_repo == w.path_in_repo,
{
    lemma_encoded_shape(v);
    lemma_encoded_shape(w);
    let t = v.encoded();
    let a = escaped(v.repo_url).len() as int;
    let a2 = escaped(w.repo_url).len() as int;
    assert(a == a2) by {
        if a < a2 {
            assert(t[a] == LINE_END);
        } else if a2 < a {
            assert(t[a2] == LINE_END);
        }
    }
    let b = a + 1 + branch_line(v.branch).len();
    let b2 = a + 1 + branch_line(w.branch).len();
    assert(b == b2) by {
        if b < b2 {
            assert(t[b] == LINE_END);
        } else if b2 < b {
            assert(t[b2] == LINE_END);
        }
    }
    lemma_escaped_injective(v.repo_url, w.repo_url);
    lemma_escaped_injective(v.path_in_repo, w.path_in_repo);
    assert(branch_line(v.branch) == branch_line(w.branch));
    let lv = branch_line(v.branch);
    match (v.branch, w.branch) {
        (Some(x), Some(y)) => {
            assert(escaped(x) =~= lv.subrange(1, lv.len() as int));
            assert(escaped(y) =~= lv.subrange(1, lv.len() as int));
            lemma_escaped_injective(x, y);
        },
        (Some(x), None) => {
            assert(lv[0] == BRANCH_GIVEN);
        },
        (None, Some(y)) => {
            assert(lv[0] == BRANCH_DEFAULT);
        },
        (None, None) => {},
    }
}

/// Decoding the stored text of a well-formed record gives the record back,
/// bound to the document asked for and without leave to overwrite.
pub proof fn lemma_decode_inverts_encode(v: BindingView, document: Seq<char>)
    requires
        v.well_formed(),
    ensures
        decoded(v.encoded(), document) == Some(v.restored(document)),
{
    let t = v.encoded();
    assert(v.stored_as(t));
    let w = choose|w: BindingView| w.stored_as(t);
    lemma_encoding_is_injective(v, w);
    assert(w.restored(document) == v.restored(document));
}

} // verus!
