use vstd::prelude::*;

verus! {

/// Index of the last `/` among the first `n` characters of `p`, or -1 when there is none.
pub open spec fn last_slash_before(p: Seq<char>, n: int) -> int
    decreases n,
{
    if n <= 0 {
        -1
    } else if p[n - 1] == '/' {
        n - 1
    } else {
        last_slash_before(p, n - 1)
    }
}

/// Index of the last `/` of `p`, or -1 when `p` holds none.
pub open spec fn last_slash(p: Seq<char>) -> int {
    last_slash_before(p, p.len() as int)
}

/// The path one level up: what stands before the last `/`, the empty path for a
/// single component, and nothing for the empty path.
pub open spec fn parent_of(p: Seq<char>) -> Option<Seq<char>> {
    if p.len() == 0 {
        None
    } else if last_slash(p) < 0 {
        Some(Seq::<char>::empty())
    } else {
        Some(p.subrange(0, last_slash(p)))
    }
}

/// The last component of `p`: what follows its last `/`.
pub open spec fn file_name_of(p: Seq<char>) -> Seq<char> {
    p.subrange(last_slash(p) + 1, p.len() as int)
}

/// `p`'s file name is a non-empty stem, a dot, and `ext`.
pub open spec fn has_extension(p: Seq<char>, ext: Seq<char>) -> bool {
    let name = file_name_of(p);
    &&& name.len() > ext.len() + 1
    &&& name.subrange(name.len() - ext.len() - 1, name.len() as int) == seq!['.'] + ext
}

/// `rel` placed below `base`; an empty `rel` names `base` itself.
pub open spec fn join_path(base: Seq<char>, rel: Seq<char>) -> Seq<char> {
    if rel.len() == 0 {
        base
    } else {
        base + seq!['/'] + rel
    }
}

proof fn lemma_last_slash_bounds(p: Seq<char>, n: int)
    requires
        0 <= n <= p.len(),
    ensures
        -1 <= last_slash_before(p, n) < n,
        last_slash_before(p, n) >= 0 ==> p[last_slash_before(p, n)] == '/',
        forall|j: int| last_slash_before(p, n) < j < n ==> p[j] != '/',
    decreases n,
{
    if n > 0 && p[n - 1] != '/' {
        lemma_last_slash_bounds(p, n - 1);
    }
}

/// Finds the last `/` of `p`.
fn find_last_slash(p: &str) -> (r: Option<usize>)
    ensures
        match r {
            Some(i) => i as int == last_slash(p@),
            None => last_slash(p@) == -1,
        },
{
    let n = p.unicode_len();
    let mut k: usize = n;
    while k > 0
        invariant
            n == p@.len(),
            k <= n,
            last_slash(p@) == last_slash_before(p@, k as int),
        decreases k,
    {
        if p.get_char(k - 1) == '/' {
            return Some(k - 1);
        }
        k = k - 1;
    }
    None
}

/// The parent of `p`, as `std::path::Path::parent` gives it for a relative path
/// written with `/`.
pub fn parent_path(p: &str) -> (r: Option<String>)
    ensures
        match r {
            Some(s) => parent_of(p@) == Some(s@),
            None => parent_of(p@).is_none(),
        },
{
    let n = p.unicode_len();
    if n == 0 {
        return None;
    }
    proof {
        lemma_last_slash_bounds(p@, p@.len() as int);
    }
    match find_last_slash(p) {
        Some(i) => Some(p.substring_char(0, i).to_string()),
        None => Some(String::new()),
    }
}

/// The last component of `p`.
pub fn file_name(p: &str) -> (r: String)
    ensures
        r@ == file_name_of(p@),
{
    proof {
        lemma_last_slash_bounds(p@, p@.len() as int);
    }
    let n = p.unicode_len();
    let start: usize = match find_last_slash(p) {
        Some(i) => i + 1,
        None => 0,
    };
    p.substring_char(start, n).to_string()
}

} // verus!
