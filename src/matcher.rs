//! Finding the recorded files that answer a query.

use vstd::prelude::*;

verus! {

/// A regular file met while walking the crawl root.
pub struct Candidate {
    /// The full path of the file.
    pub path: String,
    /// The last component of the path.
    pub file_name: String,
    /// Creation time, in seconds since the Unix epoch.
    pub created: u64,
}

impl Candidate {
    /// A field-for-field copy.
    pub fn duplicate(&self) -> (r: Candidate)
        ensures
            r == *self,
    {
        Candidate { path: self.path.clone(), file_name: self.file_name.clone(), created: self.created }
    }
}

/// Index of the last `'.'` among the first `n` characters of `name`, or -1.
pub open spec fn last_dot_before(name: Seq<char>, n: int) -> int
    decreases n,
{
    if n <= 0 {
        -1
    } else if name[n - 1] == '.' {
        n - 1
    } else {
        last_dot_before(name, n - 1)
    }
}

/// The dot found by `last_dot_before` lies before `n`, and no dot follows it there.
pub proof fn lemma_last_dot_before(name: Seq<char>, n: int)
    requires
        0 <= n <= name.len(),
    ensures
        -1 <= last_dot_before(name, n) < n,
        last_dot_before(name, n) >= 0 ==> name[last_dot_before(name, n)] == '.',
        forall|j: int| last_dot_before(name, n) < j < n ==> name[j] != '.',
    decreases n,
{
    if n > 0 && name[n - 1] != '.' {
        lemma_last_dot_before(name, n - 1);
    }
}

/// Index of the last `'.'` in `name`, or -1.
pub open spec fn last_dot(name: Seq<char>) -> int {
    last_dot_before(name, name.len() as int)
}

/// The extension of a file name: what follows its last dot, unless the name
/// has no dot or its only dot is the leading one.
pub open spec fn extension_of(name: Seq<char>) -> Option<Seq<char>> {
    let d = last_dot(name);
    if d <= 0 {
        None
    } else {
        Some(name.subrange(d + 1, name.len() as int))
    }
}

/// The container and media extensions that are published.
pub open spec fn allowed_extension(e: Seq<char>) -> bool {
    ||| e == seq!['m', '4', 'a']
    ||| e == seq!['a', 'a', 'c']
    ||| e == seq!['m', 'p', '4']
    ||| e == seq!['f', 'l', 'v']
    ||| e == seq!['m', '2', 't', 's']
}

/// `q` occurs in `s` starting at index `i`.
pub open spec fn occurs_at(s: Seq<char>, q: Seq<char>, i: int) -> bool {
    0 <= i && i + q.len() <= s.len() && s.subrange(i, i + q.len()) == q
}

/// `q` occurs in `s` as a contiguous run of characters.
pub open spec fn contains_text(s: Seq<char>, q: Seq<char>) -> bool {
    exists|i: int| occurs_at(s, q, i)
}

/// A file with this name answers `query`: its extension is allowed and its
/// name holds the query literally.
pub open spec fn answers(name: Seq<char>, query: Seq<char>) -> bool {
    &&& extension_of(name) is Some
    &&& allowed_extension(extension_of(name)->Some_0)
    &&& contains_text(name, query)
}

/// Finds the last dot of `name`, as `last_dot` does.
pub fn find_last_dot(name: &str) -> (r: Option<usize>)
    ensures
        match r {
            Some(i) => i as int == last_dot(name@),
            None => last_dot(name@) == -1,
        },
{
    let n = name.unicode_len();
    let mut k: usize = n;
    while k > 0
        invariant
            k <= n,
            n == name@.len(),
            last_dot(name@) == last_dot_before(name@, k as int),
        decreases k,
    {
        if name.get_char(k - 1) == '.' {
            return Some(k - 1);
        }
        k = k - 1;
    }
    None
}

/// The extension of a file name, as `extension_of` gives it.
pub fn extension(name: &str) -> (r: Option<String>)
    ensures
        r is Some <==> extension_of(name@) is Some,
        r is Some ==> r->Some_0@ == extension_of(name@)->Some_0,
{
    proof {
        lemma_last_dot_before(name@, name@.len() as int);
    }
    match find_last_dot(name) {
        Some(d) => {
            if d == 0 {
                None
            } else {
                let n = name.unicode_len();
                Some(String::from_str(name.substring_char(d + 1, n)))
            }
        },
        None => None,
    }
}

/// The entries that answer `query`, in the order in which they were met.
pub open spec fn found(entries: Seq<Candidate>, query: Seq<char>) -> Seq<Candidate> {
    entries.filter(|c: Candidate| answers(c.file_name@, query))
}

/// Whether two texts hold the same characters.
pub fn same_text(a: &str, b: &str) -> (r: bool)
    ensures
        r == (a@ == b@),
{
    let n = a.unicode_len();
    if n != b.unicode_len() {
        return false;
    }
    let mut j: usize = 0;
    while j < n
        invariant
            n == a@.len(),
            n == b@.len(),
            j <= n,
            forall|t: int| 0 <= t < j ==> a@[t] == b@[t],
        decreases n - j,
    {
        if a.get_char(j) != b.get_char(j) {
            return false;
        }
        j = j + 1;
    }
    proof {
        assert(a@ =~= b@);
    }
    true
}

/// Whether an extension belongs to the published set.
pub fn is_allowed_extension(e: &str) -> (r: bool)
    ensures
        r == allowed_extension(e@),
{
    proof {
        reveal_strlit("m4a");
        reveal_strlit("aac");
        reveal_strlit("mp4");
        reveal_strlit("flv");
        reveal_strlit("m2ts");
        assert("m4a"@ =~= seq!['m', '4', 'a']);
        assert("aac"@ =~= seq!['a', 'a', 'c']);
        assert("mp4"@ =~= seq!['m', 'p', '4']);
        assert("flv"@ =~= seq!['f', 'l', 'v']);
        assert("m2ts"@ =~= seq!['m', '2', 't', 's']);
    }
    same_text(e, "m4a") || same_text(e, "aac") || same_text(e, "mp4") || same_text(e, "flv")
        || same_text(e, "m2ts")
}

/// Whether `query` occurs in `name` starting at index `i`.
fn occurs_here(name: &str, query: &str, i: usize) -> (r: bool)
    requires
        i + query@.len() <= name@.len(),
    ensures
        r == occurs_at(name@, query@, i as int),
{
    let n = name.unicode_len();
    let m = query.unicode_len();
    let mut j: usize = 0;
    while j < m
        invariant
            m == query@.len(),
            n == name@.len(),
            j <= m,
            i + m <= n,
            forall|t: int| 0 <= t < j ==> name@[i + t] == query@[t],
        decreases m - j,
    {
        if name.get_char(i + j) != query.get_char(j) {
            proof {
                assert(name@.subrange(i as int, i + m)[j as int] != query@[j as int]);
            }
            return false;
        }
        j = j + 1;
    }
    proof {
        assert(name@.subrange(i as int, i + m) =~= query@);
    }
    true
}

/// Whether `query` occurs literally in `name`.
pub fn contains_query(name: &str, query: &str) -> (r: bool)
    ensures
        r == contains_text(name@, query@),
{
    let n = name.unicode_len();
    let m = query.unicode_len();
    if m > n {
        return false;
    }
    let mut i: usize = 0;
    loop
        invariant
            m <= n,
            n == name@.len(),
            m == query@.len(),
            i <= n - m,
            forall|k: int| 0 <= k < i ==> !occurs_at(name@, query@, k),
        decreases n - m - i,
    {
        if occurs_here(name, query, i) {
            return true;
        }
        if i == n - m {
            return false;
        }
        i = i + 1;
    }
}

/// Whether a file of this name answers `query`.
pub fn is_match(name: &str, query: &str) -> (r: bool)
    ensures
        r == answers(name@, query@),
{
    match extension(name) {
        Some(e) => is_allowed_extension(e.as_str()) && contains_query(name, query),
        None => false,
    }
}

/// The entries that answer `query`, in the order given.
pub fn find(entries: &Vec<Candidate>, query: &str) -> (r: Vec<Candidate>)
    ensures
        r@ == found(entries@, query@),
{
    let mut r: Vec<Candidate> = Vec::new();
    let mut i: usize = 0;
    while i < entries.len()
        invariant
            i <= entries@.len(),
            r@ == found(entries@.subrange(0, i as int), query@),
        decreases entries@.len() - i,
    {
        let c = &entries[i];
        proof {
            let s = entries@.subrange(0, i as int + 1);
            assert(s.drop_last() =~= entries@.subrange(0, i as int));
            assert(s.last() == entries@[i as int]);
            reveal(Seq::filter);
        }
        if is_match(c.file_name.as_str(), query) {
            r.push(c.duplicate());
        }
        i = i + 1;
    }
    proof {
        assert(entries@.subrange(0, entries@.len() as int) =~= entries@);
    }
    r
}

/// Every file that `find` returns has an extension of the published set,
/// whatever the entries and the query.
pub proof fn lemma_found_extensions_allowed(entries: Seq<Candidate>, query: Seq<char>)
    ensures
        forall|i: int|
            0 <= i < found(entries, query).len() ==> {
                let e = extension_of(#[trigger] found(entries, query)[i].file_name@);
                e is Some && allowed_extension(e->Some_0)
            },
{
    let pred = |c: Candidate| answers(c.file_name@, query);
    assert forall|i: int| 0 <= i < found(entries, query).len() implies {
        let e = extension_of(#[trigger] found(entries, query)[i].file_name@);
        e is Some && allowed_extension(e->Some_0)
    } by {
        entries.lemma_filter_pred(pred, i);
    }
}

} // verus!
