//! The ordered list of sibling image files and a cursor into it.
use std::cmp::Ordering;
use vstd::multiset::Multiset;
use vstd::prelude::*;
use vstd::string::StrSliceExecFns;

verus! {

/// A regular file found in the directory being browsed: its full path and its
/// file name (the last path component).
pub struct FileEntry {
    pub path: String,
    pub name: String,
}

/// The image files of one directory in natural order, with a cursor.
pub struct Navigation {
    pub file_list: Vec<FileEntry>,
    pub current_index: usize,
}

/// Index of the last `.` in `s`, or -1 where there is none.
pub open spec fn last_dot(s: Seq<char>) -> int
    decreases s.len(),
{
    if s.len() == 0 {
        -1
    } else if s.last() == '.' {
        s.len() - 1
    } else {
        last_dot(s.drop_last())
    }
}

/// The extension of a file name: what follows its last `.`, where that dot is
/// not the name's first character.
pub open spec fn extension_of(name: Seq<char>) -> Option<Seq<char>> {
    let d = last_dot(name);
    if d > 0 {
        Some(name.subrange(d + 1, name.len() as int))
    } else {
        None
    }
}

/// `c` equals the lower-case ASCII letter or digit `t`, ignoring ASCII case.
pub open spec fn char_matches_ignore_case(c: char, t: char) -> bool {
    c == t || ('A' <= c && c <= 'Z' && (c as u32) + 32 == (t as u32))
}

pub open spec fn matches_ignore_case(e: Seq<char>, t: Seq<char>) -> bool {
    e.len() == t.len() && forall|i: int|
        0 <= i < e.len() ==> #[trigger] char_matches_ignore_case(e[i], t[i])
}

/// The extensions shown by the viewer, in lower case.
pub open spec fn supported_extensions() -> Seq<Seq<char>> {
    seq![
        seq!['j', 'p', 'g'],
        seq!['j', 'p', 'e', 'g'],
        seq!['p', 'n', 'g'],
        seq!['g', 'i', 'f'],
        seq!['w', 'e', 'b', 'p'],
        seq!['b', 'm', 'p'],
        seq!['i', 'c', 'o'],
        seq!['t', 'i', 'f', 'f'],
    ]
}

pub open spec fn is_supported_extension(e: Seq<char>) -> bool {
    exists|k: int|
        0 <= k < supported_extensions().len() && #[trigger] matches_ignore_case(
            e,
            supported_extensions()[k],
        )
}

/// A file name whose extension is one of the supported ones, in any case.
pub open spec fn is_supported_name(name: Seq<char>) -> bool {
    match extension_of(name) {
        Some(e) => is_supported_extension(e),
        None => false,
    }
}

pub open spec fn is_supported_entry(e: FileEntry) -> bool {
    is_supported_name(e.name@)
}

fn find_last_dot(name: &str) -> (r: Option<usize>)
    ensures
        match r {
            Some(d) => d == last_dot(name@) && d < name@.len(),
            None => last_dot(name@) == -1,
        },
        name@.len() <= usize::MAX,
{
    let n = name.unicode_len();
    let mut i: usize = n;
    assert(name@.subrange(0, n as int) =~= name@);
    while i > 0
        invariant
            i <= n == name@.len(),
            last_dot(name@) == last_dot(name@.subrange(0, i as int)),
        decreases i,
    {
        let ghost prefix = name@.subrange(0, i as int);
        assert(prefix.drop_last() =~= name@.subrange(0, i - 1));
        if name.get_char(i - 1) == '.' {
            return Some(i - 1);
        }
        i = i - 1;
    }
    None
}

fn matches_at(name: &str, start: usize, target: &str) -> (r: bool)
    requires
        start <= name@.len(),
    ensures
        r == matches_ignore_case(name@.subrange(start as int, name@.len() as int), target@),
{
    let n = name.unicode_len();
    let m = target.unicode_len();
    let ghost e = name@.subrange(start as int, name@.len() as int);
    if n - start != m {
        return false;
    }
    let mut i: usize = 0;
    while i < m
        invariant
            start + m == n == name@.len(),
            m == target@.len(),
            i <= m,
            e == name@.subrange(start as int, name@.len() as int),
            forall|k: int| 0 <= k < i ==> #[trigger] char_matches_ignore_case(e[k], target@[k]),
        decreases m - i,
    {
        let c = name.get_char(start + i);
        let t = target.get_char(i);
        let same = c == t || ('A' <= c && c <= 'Z' && (c as u32) + 32 == (t as u32));
        if !same {
            assert(!char_matches_ignore_case(e[i as int], target@[i as int]));
            return false;
        }
        i = i + 1;
    }
    true
}

/// Whether a file name has one of the supported extensions, ignoring case.
pub fn has_supported_extension(name: &str) -> (r: bool)
    ensures
        r == is_supported_name(name@),
{
    let d = match find_last_dot(name) {
        Some(d) => d,
        None => return false,
    };
    if d == 0 {
        return false;
    }
    let ghost e = name@.subrange(d + 1, name@.len() as int);
    proof {
        reveal_strlit("jpg");
        reveal_strlit("jpeg");
        reveal_strlit("png");
        reveal_strlit("gif");
        reveal_strlit("webp");
        reveal_strlit("bmp");
        reveal_strlit("ico");
        reveal_strlit("tiff");
        assert(supported_extensions()[0] =~= "jpg"@);
        assert(supported_extensions()[1] =~= "jpeg"@);
        assert(supported_extensions()[2] =~= "png"@);
        assert(supported_extensions()[3] =~= "gif"@);
        assert(supported_extensions()[4] =~= "webp"@);
        assert(supported_extensions()[5] =~= "bmp"@);
        assert(supported_extensions()[6] =~= "ico"@);
        assert(supported_extensions()[7] =~= "tiff"@);
    }
    let r = matches_at(name, d + 1, "jpg") || matches_at(name, d + 1, "jpeg") || matches_at(
        name,
        d + 1,
        "png",
    ) || matches_at(name, d + 1, "gif") || matches_at(name, d + 1, "webp") || matches_at(
        name,
        d + 1,
        "bmp",
    ) || matches_at(name, d + 1, "ico") || matches_at(name, d + 1, "tiff");
    proof {
        if r {
            assert(is_supported_extension(e));
        } else {
            assert forall|k: int| 0 <= k < supported_extensions().len() implies !matches_ignore_case(
                e,
                supported_extensions()[k],
            ) by {}
        }
    }
    r
}

/// The natural order of two names, as natord compares them.
pub uninterp spec fn natural_cmp(a: Seq<char>, b: Seq<char>) -> Ordering;

/// Relies on `natord::compare`: the result depends on the two strings alone,
/// and the comparison treats its two sides alike, so swapping them reverses it.
#[verifier::external_body]
fn compare_natural(a: &str, b: &str) -> (r: Ordering)
    ensures
        r == natural_cmp(a@, b@),
        r == Ordering::Less <==> natural_cmp(b@, a@) == Ordering::Greater,
        r == Ordering::Greater <==> natural_cmp(b@, a@) == Ordering::Less,
{
    natord::compare(a, b)
}

/// Each name is not after the next one in natural order.
pub open spec fn sorted_by_name(s: Seq<FileEntry>) -> bool {
    forall|i: int|
        0 <= i < s.len() - 1 ==> #[trigger] natural_cmp(s[i].name@, s[i + 1].name@)
            != Ordering::Greater
}

/// Where `name` goes in a sorted list: after every entry that is not after it,
/// before every entry that is after it.
fn insertion_point(out: &Vec<FileEntry>, name: &String) -> (j: usize)
    requires
        sorted_by_name(out@),
    ensures
        j <= out.len(),
        forall|k: int| j <= k < out.len() ==> natural_cmp(name@, #[trigger] out@[k].name@)
            == Ordering::Less,
        j > 0 ==> natural_cmp(out@[j - 1].name@, name@) != Ordering::Greater,
{
    let mut j: usize = out.len();
    let mut placed = false;
    while !placed && j > 0
        invariant
            j <= out.len(),
            forall|k: int| j <= k < out.len() ==> natural_cmp(name@, #[trigger] out@[k].name@)
                == Ordering::Less,
            placed ==> j > 0 && natural_cmp(out@[j - 1].name@, name@) != Ordering::Greater,
        decreases j + (if placed { 0int } else { 1int }),
    {
        match compare_natural(out[j - 1].name.as_str(), name.as_str()) {
            Ordering::Greater => {
                j = j - 1;
            },
            _ => {
                placed = true;
            },
        }
    }
    j
}

proof fn lemma_insert_keeps_sorted(s: Seq<FileEntry>, j: int, x: FileEntry)
    requires
        sorted_by_name(s),
        0 <= j <= s.len(),
        forall|k: int| j <= k < s.len() ==> natural_cmp(x.name@, #[trigger] s[k].name@)
            == Ordering::Less,
        j > 0 ==> natural_cmp(s[j - 1].name@, x.name@) != Ordering::Greater,
    ensures
        sorted_by_name(s.insert(j, x)),
{
    let t = s.insert(j, x);
    assert forall|i: int| 0 <= i < t.len() - 1 implies #[trigger] natural_cmp(
        t[i].name@,
        t[i + 1].name@,
    ) != Ordering::Greater by {
        if i < j - 1 {
            assert(t[i] == s[i] && t[i + 1] == s[i + 1]);
            assert(natural_cmp(s[i].name@, s[i + 1].name@) != Ordering::Greater);
        } else if i == j - 1 {
            assert(t[i] == s[j - 1] && t[i + 1] == x);
        } else if i == j {
            assert(t[i] == x && t[i + 1] == s[j]);
            assert(natural_cmp(x.name@, s[j].name@) == Ordering::Less);
        } else {
            assert(t[i] == s[i - 1] && t[i + 1] == s[i]);
            let k = i - 1;
            assert(natural_cmp(s[k].name@, s[k + 1].name@) != Ordering::Greater);
        }
    }
}

proof fn lemma_insert_moves_one(out: Seq<FileEntry>, rest: Seq<FileEntry>, j: int)
    requires
        0 <= j <= out.len(),
        rest.len() > 0,
    ensures
        out.insert(j, rest[0]).to_multiset().add(rest.drop_first().to_multiset())
            == out.to_multiset().add(rest.to_multiset()),
{
    broadcast use vstd::seq_lib::group_to_multiset_ensures;

    let x = rest[0];
    assert(rest =~= seq![x].add(rest.drop_first()));
    vstd::seq_lib::lemma_multiset_commutative(seq![x], rest.drop_first());
    assert(seq![x].to_multiset() =~= Multiset::empty().insert(x));
    assert(out.insert(j, x).to_multiset().add(rest.drop_first().to_multiset()) =~= out.to_multiset().add(rest.to_multiset()));
}

/// Sorts entries by file name in natural order (digit runs compare by value).
pub fn sort_natural(entries: Vec<FileEntry>) -> (r: Vec<FileEntry>)
    ensures
        r@.to_multiset() == entries@.to_multiset(),
        sorted_by_name(r@),
{
    let mut rest = entries;
    let mut out: Vec<FileEntry> = Vec::new();
    let ghost all = entries@;
    proof {
        broadcast use vstd::seq_lib::group_to_multiset_ensures;

        assert(out@.to_multiset() =~= Multiset::empty());
        assert(out@.to_multiset().add(rest@.to_multiset()) =~= all.to_multiset());
    }
    while rest.len() > 0
        invariant
            out@.to_multiset().add(rest@.to_multiset()) == all.to_multiset(),
            sorted_by_name(out@),
        decreases rest.len(),
    {
        let ghost rest0 = rest@;
        let x = rest.remove(0);
        let j = insertion_point(&out, &x.name);
        let ghost before = out@;
        out.insert(j, x);
        proof {
            lemma_insert_keeps_sorted(before, j as int, x);
            lemma_insert_moves_one(before, rest0, j as int);
        }
    }
    proof {
        broadcast use vstd::seq_lib::group_to_multiset_ensures;

        assert(rest@.to_multiset() =~= Multiset::empty());
    }
    out
}

/// The entries whose file name has a supported extension, in their order.
pub open spec fn supported_entries(s: Seq<FileEntry>) -> Seq<FileEntry> {
    s.filter(|e: FileEntry| is_supported_name(e.name@))
}

/// Keeps the entries whose file name has a supported extension.
pub fn filter_supported(entries: Vec<FileEntry>) -> (r: Vec<FileEntry>)
    ensures
        r@ == supported_entries(entries@),
{
    let ghost all = entries@;
    let mut rest = entries;
    let mut kept: Vec<FileEntry> = Vec::new();
    let ghost mut n: int = 0;
    proof {
        assert(all.subrange(0, 0) =~= Seq::<FileEntry>::empty());
        assert(rest@ =~= all.subrange(0, all.len() as int));
        reveal(Seq::filter);
        assert(supported_entries(all.subrange(0, 0)) =~= Seq::<FileEntry>::empty());
    }
    while rest.len() > 0
        invariant
            0 <= n <= all.len(),
            rest@ == all.subrange(n, all.len() as int),
            kept@ == supported_entries(all.subrange(0, n)),
        decreases rest.len(),
    {
        let ghost rest0 = rest@;
        let x = rest.remove(0);
        proof {
            assert(x == all[n]);
            assert(all.subrange(0, n + 1).drop_last() =~= all.subrange(0, n));
            assert(all.subrange(0, n + 1).last() == x);
            reveal(Seq::filter);
            assert(rest@ =~= all.subrange(n + 1, all.len() as int));
        }
        if has_supported_extension(x.name.as_str()) {
            kept.push(x);
        }
        proof {
            n = n + 1;
        }
    }
    proof {
        assert(all.subrange(0, n) =~= all);
    }
    kept
}

/// `s` has an entry whose path is `p`.
pub open spec fn lists_path(s: Seq<FileEntry>, p: Seq<char>) -> bool {
    exists|i: int| 0 <= i < s.len() && #[trigger] s[i].path@ == p
}

/// The index of the first entry whose path is `p`.
fn position_of(list: &Vec<FileEntry>, p: &String) -> (r: Option<usize>)
    ensures
        match r {
            Some(i) => i < list@.len() && list@[i as int].path@ == p@ && forall|k: int|
                0 <= k < i ==> #[trigger] list@[k].path@ != p@,
            None => !lists_path(list@, p@),
        },
{
    let mut i: usize = 0;
    while i < list.len()
        invariant
            i <= list@.len(),
            forall|k: int| 0 <= k < i ==> #[trigger] list@[k].path@ != p@,
        decreases list.len() - i,
    {
        if list[i].path == *p {
            return Some(i);
        }
        i = i + 1;
    }
    None
}

/// Cursor position one step forward, wrapping to the first entry.
pub open spec fn next_index(i: int, len: int) -> int {
    (i + 1) % len
}

/// Cursor position one step back, wrapping to the last entry.
pub open spec fn previous_index(i: int, len: int) -> int {
    (i - 1 + len) % len
}

/// The cursor position after `n` steps forward.
pub open spec fn next_steps(i: int, len: int, n: nat) -> int
    decreases n,
{
    if n == 0 {
        i
    } else {
        next_index(next_steps(i, len, (n - 1) as nat), len)
    }
}

/// The cursor position after `n` steps back.
pub open spec fn previous_steps(i: int, len: int, n: nat) -> int
    decreases n,
{
    if n == 0 {
        i
    } else {
        previous_index(previous_steps(i, len, (n - 1) as nat), len)
    }
}

proof fn lemma_next_steps(i: int, len: int, n: nat)
    requires
        0 <= i < len,
    ensures
        next_steps(i, len, n) == (i + n) % len,
    decreases n,
{
    if n == 0 {
        vstd::arithmetic::div_mod::lemma_small_mod(i as nat, len as nat);
    } else {
        lemma_next_steps(i, len, (n - 1) as nat);
        vstd::arithmetic::div_mod::lemma_add_mod_noop_right(1, i + n - 1, len);
    }
}

proof fn lemma_previous_steps(i: int, len: int, n: nat)
    requires
        0 <= i < len,
    ensures
        previous_steps(i, len, n) == (i - n) % len,
    decreases n,
{
    if n == 0 {
        vstd::arithmetic::div_mod::lemma_small_mod(i as nat, len as nat);
    } else {
        lemma_previous_steps(i, len, (n - 1) as nat);
        let x = (i - (n - 1)) % len;
        vstd::arithmetic::div_mod::lemma_mod_add_multiples_vanish(x - 1, len);
        if len == 1 {
            vstd::arithmetic::div_mod::lemma_mod_bound(x - 1 + len, len);
            vstd::arithmetic::div_mod::lemma_mod_bound(i - n, len);
        } else {
            vstd::arithmetic::div_mod::lemma_sub_mod_noop(i - (n - 1), 1, len);
            vstd::arithmetic::div_mod::lemma_small_mod(1, len as nat);
            assert(i - (n - 1) - 1 == i - n);
        }
    }
}

proof fn lemma_index_round_trip(i: int, len: int)
    requires
        0 <= i < len,
    ensures
        previous_index(next_index(i, len), len) == i,
        next_index(previous_index(i, len), len) == i,
{
    if i + 1 < len {
        vstd::arithmetic::div_mod::lemma_small_mod((i + 1) as nat, len as nat);
        vstd::arithmetic::div_mod::lemma_mod_add_multiples_vanish(i, len);
        vstd::arithmetic::div_mod::lemma_small_mod(i as nat, len as nat);
    } else {
        vstd::arithmetic::div_mod::lemma_mod_self_0(len);
        vstd::arithmetic::div_mod::lemma_small_mod((len - 1) as nat, len as nat);
    }
    if i > 0 {
        vstd::arithmetic::div_mod::lemma_mod_add_multiples_vanish(i - 1, len);
        vstd::arithmetic::div_mod::lemma_small_mod((i - 1) as nat, len as nat);
        vstd::arithmetic::div_mod::lemma_small_mod(i as nat, len as nat);
    } else {
        vstd::arithmetic::div_mod::lemma_small_mod((len - 1) as nat, len as nat);
        vstd::arithmetic::div_mod::lemma_mod_self_0(len);
    }
}

/// On a non-empty list, a step forward followed by a step back (or a step
/// back followed by a step forward) puts the cursor where it was, and as many
/// steps in one direction as the list has entries bring it back to the start.
pub proof fn lemma_steps_round_trip(nav: Navigation)
    requires
        nav.wf(),
        nav.file_list@.len() > 0,
    ensures
        previous_index(next_index(nav.current_index as int, nav.file_list@.len() as int), nav.file_list@.len() as int)
            == nav.current_index,
        next_index(previous_index(nav.current_index as int, nav.file_list@.len() as int), nav.file_list@.len() as int)
            == nav.current_index,
        next_steps(nav.current_index as int, nav.file_list@.len() as int, nav.file_list@.len())
            == nav.current_index,
        previous_steps(nav.current_index as int, nav.file_list@.len() as int, nav.file_list@.len())
            == nav.current_index,
{
    let i = nav.current_index as int;
    let len = nav.file_list@.len() as int;
    lemma_index_round_trip(i, len);
    lemma_next_steps(i, len, len as nat);
    lemma_previous_steps(i, len, len as nat);
    vstd::arithmetic::div_mod::lemma_mod_add_multiples_vanish(i, len);
    vstd::arithmetic::div_mod::lemma_mod_sub_multiples_vanish(i, len);
    vstd::arithmetic::div_mod::lemma_small_mod(i as nat, len as nat);
}

impl Navigation {
    /// The cursor is on an entry, or the list is empty and the cursor is 0.
    pub open spec fn wf(&self) -> bool {
        self.current_index < self.file_list@.len() || (self.file_list@.len() == 0
            && self.current_index == 0)
    }

    /// Builds the list from the regular files of the directory being browsed:
    /// keeps those with a supported extension, sorts them by file name in
    /// natural order, and puts the cursor on `current_path` where it is listed,
    /// else on the first entry.
    pub fn from_path(current_path: &str, entries: Vec<FileEntry>) -> (r: Navigation)
        ensures
            r.wf(),
            r.file_list@.to_multiset() == supported_entries(entries@).to_multiset(),
            sorted_by_name(r.file_list@),
            lists_path(r.file_list@, current_path@) ==> r.file_list@[r.current_index as int].path@
                == current_path@ && forall|k: int|
                0 <= k < r.current_index ==> #[trigger] r.file_list@[k].path@ != current_path@,
            !lists_path(r.file_list@, current_path@) ==> r.current_index == 0,
    {
        let kept = filter_supported(entries);
        let file_list = sort_natural(kept);
        let target = current_path.to_owned();
        let current_index = match position_of(&file_list, &target) {
            Some(i) => i,
            None => 0,
        };
        Navigation { file_list, current_index }
    }

    pub fn is_empty(&self) -> (r: bool)
        ensures
            r == (self.file_list@.len() == 0),
    {
        self.file_list.len() == 0
    }

    /// The path under the cursor; `None` when the cursor is on no entry, as
    /// for an empty list.
    pub fn current_path(&self) -> (r: Option<&String>)
        ensures
            match r {
                Some(p) => self.current_index < self.file_list@.len() && *p
                    == self.file_list@[self.current_index as int].path,
                None => self.current_index >= self.file_list@.len(),
            },
    {
        if self.current_index < self.file_list.len() {
            Some(&self.file_list[self.current_index].path)
        } else {
            None
        }
    }

    /// Moves the cursor one entry back, from the first to the last; does
    /// nothing on an empty list.
    pub fn navigate_previous(&mut self)
        requires
            old(self).wf(),
        ensures
            final(self).wf(),
            final(self).file_list == old(self).file_list,
            old(self).file_list@.len() == 0 ==> final(self).current_index == old(self).current_index,
            old(self).file_list@.len() > 0 ==> final(self).current_index == previous_index(
                old(self).current_index as int,
                old(self).file_list@.len() as int,
            ),
    {
        if self.file_list.len() == 0 {
            return;
        }
        let len = self.file_list.len();
        self.current_index = if self.current_index == 0 {
            len - 1
        } else {
            self.current_index - 1
        };
        proof {
            let i = old(self).current_index as int;
            if i == 0 {
                vstd::arithmetic::div_mod::lemma_small_mod((len - 1) as nat, len as nat);
            } else {
                vstd::arithmetic::div_mod::lemma_mod_add_multiples_vanish(i - 1, len as int);
                vstd::arithmetic::div_mod::lemma_small_mod((i - 1) as nat, len as nat);
            }
        }
    }

    /// Moves the cursor one entry forward, from the last to the first; does
    /// nothing on an empty list.
    pub fn navigate_next(&mut self)
        requires
            old(self).wf(),
        ensures
            final(self).wf(),
            final(self).file_list == old(self).file_list,
            old(self).file_list@.len() == 0 ==> final(self).current_index == old(self).current_index,
            old(self).file_list@.len() > 0 ==> final(self).current_index == next_index(
                old(self).current_index as int,
                old(self).file_list@.len() as int,
            ),
    {
        if self.file_list.len() == 0 {
            return;
        }
        let len = self.file_list.len();
        self.current_index = if self.current_index + 1 >= len {
            0
        } else {
            self.current_index + 1
        };
        proof {
            let i = old(self).current_index as int;
            if i + 1 >= len {
                vstd::arithmetic::div_mod::lemma_mod_self_0(len as int);
            } else {
                vstd::arithmetic::div_mod::lemma_small_mod((i + 1) as nat, len as nat);
            }
        }
    }
}

} // verus!
