//! Reading what the version-control tool prints.
use vstd::prelude::*;
use vstd::string::StrSliceExecFns;
use crate::identical::names_of;

verus! {

/// How many characters of `s` come before its first line break.
pub open spec fn line_len(s: Seq<char>) -> nat
    decreases s.len(),
{
    if s.len() == 0 || s[0] == '\n' {
        0
    } else {
        1 + line_len(s.drop_first())
    }
}

/// The lines of `s`: the pieces between line breaks, with no empty piece
/// after a final line break.
pub open spec fn lines_of(s: Seq<char>) -> Seq<Seq<char>>
    decreases s.len(),
{
    if s.len() == 0 {
        Seq::empty()
    } else {
        let n = line_len(s);
        if n < s.len() {
            seq![s.take(n as int)] + lines_of(s.skip(n as int + 1))
        } else {
            seq![s]
        }
    }
}

proof fn lemma_line_len(s: Seq<char>, k: int)
    requires
        0 <= k <= s.len(),
        forall|j: int| 0 <= j < k ==> s[j] != '\n',
        k == s.len() || s[k] == '\n',
    ensures
        line_len(s) == k,
    decreases k,
{
    if k > 0 {
        lemma_line_len(s.drop_first(), k - 1);
    }
}

/// The lines of `text`.
pub fn split_lines(text: &str) -> (r: Vec<String>)
    ensures
        names_of(r@) == lines_of(text@),
{
    let n = text.unicode_len();
    let s = Ghost(text@);
    let mut r: Vec<String> = Vec::new();
    let mut start: usize = 0;
    let mut i: usize = 0;
    proof {
        assert(s@.skip(0) =~= s@);
        assert(names_of(r@) =~= Seq::<Seq<char>>::empty());
    }
    while i < n
        invariant
            n == s@.len(),
            s@ == text@,
            0 <= start <= i <= n,
            forall|j: int| start <= j < i ==> s@[j] != '\n',
            lines_of(s@) == names_of(r@) + lines_of(s@.skip(start as int)),
        decreases n - i,
    {
        if text.get_char(i) == '\n' {
            let line = text.substring_char(start, i);
            proof {
                let rest = s@.skip(start as int);
                lemma_line_len(rest, i - start);
                assert(rest.take(i - start) =~= line@);
                assert(rest.skip(i - start + 1) =~= s@.skip(i + 1));
            }
            let ghost before = r@;
            r.push(line.to_owned());
            proof {
                assert(names_of(r@) =~= names_of(before).push(line@));
                assert(lines_of(s@.skip(start as int)) == seq![line@] + lines_of(s@.skip(i + 1)));
                assert(lines_of(s@) =~= names_of(r@) + lines_of(s@.skip(i + 1)));
            }
            start = i + 1;
        }
        i += 1;
    }
    if start < n {
        let line = text.substring_char(start, n);
        let ghost before = r@;
        r.push(line.to_owned());
        proof {
            let rest = s@.skip(start as int);
            lemma_line_len(rest, n - start);
            assert(rest =~= line@);
            assert(names_of(r@) =~= names_of(before).push(line@));
            assert(lines_of(s@) =~= names_of(r@));
        }
    } else {
        assert(s@.skip(start as int) =~= Seq::<char>::empty());
        assert(lines_of(s@) =~= names_of(r@));
    }
    r
}

/// The branch that a line of the branch list names: the line less its
/// two-character marker, unless the marker says that the branch is checked
/// out in another worktree.
pub open spec fn branch_of_line(line: Seq<char>) -> Option<Seq<char>> {
    if line.len() >= 2 && !(line[0] == '+' && line[1] == ' ') {
        Some(line.skip(2))
    } else {
        None
    }
}

/// The branches that the lines of a branch list name, in order.
pub open spec fn listed_branches(lines: Seq<Seq<char>>) -> Seq<Seq<char>>
    decreases lines.len(),
{
    if lines.len() == 0 {
        Seq::empty()
    } else {
        let prev = listed_branches(lines.drop_last());
        match branch_of_line(lines.last()) {
            Some(b) => prev.push(b),
            None => prev,
        }
    }
}

/// `s` less its leading spaces.
pub open spec fn skip_spaces(s: Seq<char>) -> Seq<char>
    decreases s.len(),
{
    if s.len() > 0 && s[0] == ' ' {
        skip_spaces(s.drop_first())
    } else {
        s
    }
}

/// How many characters of `s` come before its first space.
pub open spec fn word_len(s: Seq<char>) -> nat
    decreases s.len(),
{
    if s.len() == 0 || s[0] == ' ' {
        0
    } else {
        1 + word_len(s.drop_first())
    }
}

/// The first word of `s`, after any leading spaces.
pub open spec fn first_word(s: Seq<char>) -> Seq<char> {
    skip_spaces(s).take(word_len(skip_spaces(s)) as int)
}

/// What follows the first word of `s`.
pub open spec fn after_first_word(s: Seq<char>) -> Seq<char> {
    skip_spaces(s).skip(word_len(skip_spaces(s)) as int)
}

/// The branch and tip commit that an entry of the verbose branch list names:
/// its first two words.
pub open spec fn branch_and_tip(entry: Seq<char>) -> Option<(Seq<char>, Seq<char>)> {
    let branch = first_word(entry);
    let tip = first_word(after_first_word(entry));
    if branch.len() > 0 && tip.len() > 0 {
        Some((branch, tip))
    } else {
        None
    }
}

/// The (branch, tip) pairs of the entries of a verbose branch list, in order.
pub open spec fn listed_tips(entries: Seq<Seq<char>>) -> Seq<(Seq<char>, Seq<char>)>
    decreases entries.len(),
{
    if entries.len() == 0 {
        Seq::empty()
    } else {
        let prev = listed_tips(entries.drop_last());
        match branch_and_tip(entries.last()) {
            Some(p) => prev.push(p),
            None => prev,
        }
    }
}

/// `s` holds `pat` at position `i`.
pub open spec fn holds_at(s: Seq<char>, pat: Seq<char>, i: int) -> bool {
    0 <= i && i + pat.len() <= s.len() && s.subrange(i, i + pat.len()) == pat
}

/// `s` holds `pat` somewhere.
pub open spec fn holds(s: Seq<char>, pat: Seq<char>) -> bool {
    exists|i: int| #[trigger] holds_at(s, pat, i)
}

/// The branch that an entry of the very verbose branch list names, if it
/// tracks a remote branch that still exists: the text before its first
/// space.
pub open spec fn tracking_branch_of(entry: Seq<char>) -> Option<Seq<char>> {
    if holds(entry, seq!['[', 'o', 'r', 'i', 'g', 'i', 'n', '/']) && !holds(
        entry,
        seq![':', ' ', 'g', 'o', 'n', 'e', ']'],
    ) {
        Some(entry.take(word_len(entry) as int))
    } else {
        None
    }
}

/// The tracking branches that the entries name, in order.
pub open spec fn listed_tracking(entries: Seq<Seq<char>>) -> Seq<Seq<char>>
    decreases entries.len(),
{
    if entries.len() == 0 {
        Seq::empty()
    } else {
        let prev = listed_tracking(entries.drop_last());
        match tracking_branch_of(entries.last()) {
            Some(b) => prev.push(b),
            None => prev,
        }
    }
}

/// The checked-out branch that a branch list names: the first line marked
/// with a star, less its marker.
pub open spec fn current_branch_of(lines: Seq<Seq<char>>) -> Option<Seq<char>>
    decreases lines.len(),
{
    if lines.len() == 0 {
        None
    } else if lines[0].len() >= 2 && lines[0][0] == '*' {
        Some(lines[0].skip(2))
    } else {
        current_branch_of(lines.drop_first())
    }
}

/// The position of the first non-space character of `s` at or after `i`.
fn skip_spaces_from(s: &str, i: usize) -> (r: usize)
    requires
        i <= s@.len(),
    ensures
        i <= r <= s@.len(),
        s@.skip(r as int) == skip_spaces(s@.skip(i as int)),
{
    let n = s.unicode_len();
    let mut j: usize = i;
    while j < n && s.get_char(j) == ' '
        invariant
            n == s@.len(),
            i <= j <= n,
            skip_spaces(s@.skip(j as int)) == skip_spaces(s@.skip(i as int)),
        decreases n - j,
    {
        assert(s@.skip(j as int).drop_first() =~= s@.skip(j + 1));
        j += 1;
    }
    j
}

/// The position of the first space of `s` at or after `i`, or its end.
fn word_end_from(s: &str, i: usize) -> (r: usize)
    requires
        i <= s@.len(),
    ensures
        i <= r <= s@.len(),
        r - i == word_len(s@.skip(i as int)),
{
    let n = s.unicode_len();
    let mut j: usize = i;
    while j < n && s.get_char(j) != ' '
        invariant
            n == s@.len(),
            i <= j <= n,
            word_len(s@.skip(i as int)) == (j - i) + word_len(s@.skip(j as int)),
        decreases n - j,
    {
        assert(s@.skip(j as int).drop_first() =~= s@.skip(j + 1));
        j += 1;
    }
    j
}

/// Whether `s` holds `pat`.
fn holds_text(s: &str, pat: &str) -> (r: bool)
    ensures
        r == holds(s@, pat@),
{
    let n = s.unicode_len();
    let m = pat.unicode_len();
    if m > n {
        assert forall|i: int| !#[trigger] holds_at(s@, pat@, i) by {}
        return false;
    }
    let mut i: usize = 0;
    while i <= n - m
        invariant
            n == s@.len(),
            m == pat@.len(),
            m <= n,
            0 <= i <= n - m + 1,
            forall|k: int| 0 <= k < i ==> !#[trigger] holds_at(s@, pat@, k),
        decreases n - m + 1 - i,
    {
        let mut j: usize = 0;
        while j < m && s.get_char(i + j) == pat.get_char(j)
            invariant
                n == s@.len(),
                m == pat@.len(),
                i + m <= n,
                0 <= j <= m,
                forall|t: int| 0 <= t < j ==> s@[i + t] == pat@[t],
            decreases m - j,
        {
            j += 1;
        }
        if j == m {
            assert(s@.subrange(i as int, i + m) =~= pat@);
            assert(holds_at(s@, pat@, i as int));
            return true;
        }
        assert(!holds_at(s@, pat@, i as int)) by {
            if holds_at(s@, pat@, i as int) {
                assert(s@.subrange(i as int, i + m)[j as int] == pat@[j as int]);
            }
        }
        i += 1;
    }
    assert forall|k: int| !#[trigger] holds_at(s@, pat@, k) by {
        if k >= i {
            assert(k + m > n);
        }
    }
    false
}







/// How many characters of `s` come before its first slash.
pub open spec fn prefix_len(s: Seq<char>) -> nat
    decreases s.len(),
{
    if s.len() == 0 || s[0] == '/' {
        0
    } else {
        1 + prefix_len(s.drop_first())
    }
}

/// The branch that the short name of the remote's head reference names
/// (`origin/main` names `main`): the first line's text after its first
/// slash, when there is such text.
pub open spec fn remote_head_branch(lines: Seq<Seq<char>>) -> Option<Seq<char>> {
    if lines.len() == 0 {
        None
    } else {
        let l = lines[0];
        let p = prefix_len(l);
        if p + 1 < l.len() {
            Some(l.skip(p as int + 1))
        } else {
            None
        }
    }
}


/// A repository, at `path`, and what its git commands print.
pub struct Repository {
    pub path: String,
}

impl Repository {
    pub fn new(path: String) -> (r: Repository)
        ensures
            r.path@ == path@,
    {
        Repository { path }
    }

    /// The branches that the output of a branch listing names, less those
    /// checked out in other worktrees.
    pub fn list_branches(output: &str) -> (r: Vec<String>)
        ensures
            names_of(r@) == listed_branches(lines_of(output@)),
    {
        let lines = split_lines(output);
        let mut r: Vec<String> = Vec::new();
        let mut k: usize = 0;
        while k < lines.len()
            invariant
                0 <= k <= lines.len(),
                names_of(lines@) == lines_of(output@),
                names_of(r@) == listed_branches(names_of(lines@).take(k as int)),
            decreases lines.len() - k,
        {
            let line = lines[k].as_str();
            proof {
                assert(names_of(lines@).take(k + 1).drop_last() =~= names_of(lines@).take(k as int));
                assert(names_of(lines@).take(k + 1).last() == line@);
            }
            let n = line.unicode_len();
            if n >= 2 && !(line.get_char(0) == '+' && line.get_char(1) == ' ') {
                let name = line.substring_char(2, n);
                let ghost before = r@;
                r.push(name.to_owned());
                proof {
                    assert(name@ =~= line@.skip(2));
                    assert(names_of(r@) =~= names_of(before).push(name@));
                }
            }
            k += 1;
        }
        assert(names_of(lines@).take(lines.len() as int) =~= names_of(lines@));
        r
    }

    /// The branches that contain a commit, from the output of a branch listing
    /// restricted to them, less those checked out in other worktrees.
    pub fn list_branches_containing(output: &str) -> (r: Vec<String>)
        ensures
            names_of(r@) == listed_branches(lines_of(output@)),
    {
        Repository::list_branches(output)
    }

    /// The (branch, tip) pairs that the output of a verbose branch listing
    /// names, less the branches checked out in other worktrees.
    pub fn list_branches_with_sha1s(output: &str) -> (r: Vec<(String, String)>)
        ensures
            r@.map_values(|p: (String, String)| (p.0@, p.1@)) == listed_tips(listed_branches(lines_of(output@))),
    {
        let entries = Repository::list_branches(output);
        let ghost es = names_of(entries@);
        let mut r: Vec<(String, String)> = Vec::new();
        let mut k: usize = 0;
        while k < entries.len()
            invariant
                0 <= k <= entries.len(),
                es == names_of(entries@),
                es == listed_branches(lines_of(output@)),
                r@.map_values(|p: (String, String)| (p.0@, p.1@)) == listed_tips(es.take(k as int)),
            decreases entries.len() - k,
        {
            let e = entries[k].as_str();
            proof {
                assert(es.take(k + 1).drop_last() =~= es.take(k as int));
                assert(es.take(k + 1).last() == e@);
            }
            let b0 = skip_spaces_from(e, 0);
            let b1 = word_end_from(e, b0);
            let t0 = skip_spaces_from(e, b1);
            let t1 = word_end_from(e, t0);
            proof {
                assert(e@.skip(0) =~= e@);
                let w = skip_spaces(e@);
                assert(first_word(e@) =~= e@.subrange(b0 as int, b1 as int));
                assert(after_first_word(e@) =~= e@.skip(b1 as int));
                assert(first_word(after_first_word(e@)) =~= e@.subrange(t0 as int, t1 as int));
            }
            if b1 > b0 && t1 > t0 {
                let branch = e.substring_char(b0, b1).to_owned();
                let tip = e.substring_char(t0, t1).to_owned();
                let ghost before = r@;
                r.push((branch, tip));
                proof {
                    assert(r@.map_values(|p: (String, String)| (p.0@, p.1@)) =~= before.map_values(
                        |p: (String, String)| (p.0@, p.1@),
                    ).push((branch@, tip@)));
                }
            }
            k += 1;
        }
        assert(es.take(entries.len() as int) =~= es);
        r
    }

    /// The tracking branches whose remote branch still exists, from the output
    /// of a very verbose branch listing.
    pub fn list_tracking_branches(output: &str) -> (r: Vec<String>)
        ensures
            names_of(r@) == listed_tracking(listed_branches(lines_of(output@))),
    {
        let entries = Repository::list_branches(output);
        let ghost es = names_of(entries@);
        let remote = "[origin/";
        let gone = ": gone]";
        proof {
            reveal_strlit("[origin/");
            reveal_strlit(": gone]");
            assert(remote@ =~= seq!['[', 'o', 'r', 'i', 'g', 'i', 'n', '/']);
            assert(gone@ =~= seq![':', ' ', 'g', 'o', 'n', 'e', ']']);
        }
        let mut r: Vec<String> = Vec::new();
        let mut k: usize = 0;
        while k < entries.len()
            invariant
                0 <= k <= entries.len(),
                es == names_of(entries@),
                es == listed_branches(lines_of(output@)),
                remote@ == seq!['[', 'o', 'r', 'i', 'g', 'i', 'n', '/'],
                gone@ == seq![':', ' ', 'g', 'o', 'n', 'e', ']'],
                names_of(r@) == listed_tracking(es.take(k as int)),
            decreases entries.len() - k,
        {
            let e = entries[k].as_str();
            proof {
                assert(es.take(k + 1).drop_last() =~= es.take(k as int));
                assert(es.take(k + 1).last() == e@);
            }
            if holds_text(e, remote) && !holds_text(e, gone) {
                let end = word_end_from(e, 0);
                let name = e.substring_char(0, end).to_owned();
                let ghost before = r@;
                r.push(name);
                proof {
                    assert(e@.skip(0) =~= e@);
                    assert(name@ =~= e@.take(word_len(e@) as int));
                    assert(names_of(r@) =~= names_of(before).push(name@));
                }
            }
            k += 1;
        }
        assert(es.take(entries.len() as int) =~= es);
        r
    }

    /// The checked-out branch that the output of a branch listing names, if
    /// any.
    pub fn get_current_branch(output: &str) -> (r: Option<String>)
        ensures
            r matches Some(b) ==> current_branch_of(lines_of(output@)) == Some(b@),
            r is None ==> current_branch_of(lines_of(output@)) is None,
    {
        let lines = split_lines(output);
        let ghost ls = names_of(lines@);
        let mut k: usize = 0;
        assert(ls.skip(0) =~= ls);
        while k < lines.len()
            invariant
                0 <= k <= lines.len(),
                ls == names_of(lines@),
                ls == lines_of(output@),
                current_branch_of(ls) == current_branch_of(ls.skip(k as int)),
            decreases lines.len() - k,
        {
            let line = lines[k].as_str();
            proof {
                assert(ls.skip(k as int)[0] == line@);
                assert(ls.skip(k as int).drop_first() =~= ls.skip(k + 1));
            }
            let n = line.unicode_len();
            if n >= 2 && line.get_char(0) == '*' {
                let name = line.substring_char(2, n).to_owned();
                assert(name@ =~= line@.skip(2));
                return Some(name);
            }
            k += 1;
        }
        assert(ls.skip(k as int) =~= Seq::<Seq<char>>::empty());
        None
    }

    /// Whether the short status output reports changes: it does when it is not
    /// empty.
    pub fn has_changes(output: &str) -> (r: bool)
        ensures
            r == (output@.len() > 0),
    {
        output.unicode_len() > 0
    }

    /// The commit that a one-line commit description names: its text before
    /// the first space.
    pub fn get_current_sha1(output: &str) -> (r: String)
        ensures
            r@ == output@.take(word_len(output@) as int),
    {
        let end = word_end_from(output, 0);
        proof {
            assert(output@.skip(0) =~= output@);
        }
        let r = output.substring_char(0, end).to_owned();
        assert(r@ =~= output@.take(word_len(output@) as int));
        r
    }

    /// The branch that the remote's head reference names, from the output that
    /// gives its short name.
    pub fn find_default_branch(output: &str) -> (r: Option<String>)
        ensures
            r matches Some(b) ==> remote_head_branch(lines_of(output@)) == Some(b@),
            r is None ==> remote_head_branch(lines_of(output@)) is None,
    {
        let lines = split_lines(output);
        if lines.len() == 0 {
            return None;
        }
        let l = lines[0].as_str();
        proof {
            assert(names_of(lines@)[0] == l@);
        }
        let n = l.unicode_len();
        let mut j: usize = 0;
        assert(l@.skip(0) =~= l@);
        while j < n && l.get_char(j) != '/'
            invariant
                n == l@.len(),
                0 <= j <= n,
                prefix_len(l@) == j + prefix_len(l@.skip(j as int)),
            decreases n - j,
        {
            assert(l@.skip(j as int).drop_first() =~= l@.skip(j + 1));
            j += 1;
        }
        if j < n && j + 1 < n {
            let b = l.substring_char(j + 1, n).to_owned();
            assert(b@ =~= l@.skip(j + 1));
            Some(b)
        } else {
            None
        }
    }
}

} // verus!
