//! The per-request mapping from path-parameter name to the value a route
//! match extracted.
use vstd::prelude::*;

verus! {

/// The map that results from inserting the pairs of `s` in order: a later
/// pair with the same name replaces an earlier one.
pub open spec fn map_of(s: Seq<(Seq<char>, Seq<char>)>) -> Map<Seq<char>, Seq<char>>
    decreases s.len(),
{
    if s.len() == 0 {
        Map::empty()
    } else {
        map_of(s.drop_last()).insert(s.last().0, s.last().1)
    }
}

pub open spec fn pairs_view(v: Seq<(String, String)>) -> Seq<(Seq<char>, Seq<char>)> {
    v.map_values(|p: (String, String)| (p.0@, p.1@))
}

/// Path parameters of one request, in the order the path binds them; a
/// later pair with a name replaces an earlier one, as inserting into a map
/// would. They are kept as pairs rather than in a std map: for `String`
/// keys the verifier's library specifies no map operation the contracts
/// could use.
pub struct Context {
    pub vars: Vec<(String, String)>,
}

impl View for Context {
    type V = Map<Seq<char>, Seq<char>>;

    open spec fn view(&self) -> Map<Seq<char>, Seq<char>> {
        map_of(pairs_view(self.vars@))
    }
}

impl Context {
    /// A context without parameters.
    pub fn new() -> (r: Context)
        ensures
            r@ == Map::<Seq<char>, Seq<char>>::empty(),
    {
        let r = Context { vars: Vec::new() };
        assert(pairs_view(r.vars@) =~= Seq::empty());
        r
    }

    /// The value bound to `name`, if any.
    pub fn get(&self, name: &str) -> (r: Option<&String>)
        ensures
            r matches Some(v) ==> self@.contains_key(name@) && self@[name@] == v@,
            r is None ==> !self@.contains_key(name@),
    {
        let ghost s = pairs_view(self.vars@);
        let mut i: usize = self.vars.len();
        while i > 0
            invariant
                i <= self.vars@.len(),
                s == pairs_view(self.vars@),
                forall|j: int| i <= j < s.len() ==> s[j].0 != name@,
            decreases i,
        {
            if str_eq(self.vars[i - 1].0.as_str(), name) {
                proof {
                    lemma_map_of_suffix_free(s, i as int, name@);
                    assert(s.subrange(0, i as int).drop_last() =~= s.subrange(0, i - 1));
                }
                return Some(&self.vars[i - 1].1);
            }
            i = i - 1;
        }
        proof {
            lemma_map_of_suffix_free(s, 0, name@);
        }
        None
    }
}

/// Whether two strings hold the same characters.
pub fn str_eq(a: &str, b: &str) -> (r: bool)
    ensures
        r == (a@ == b@),
{
    let n = a.unicode_len();
    if n != b.unicode_len() {
        return false;
    }
    let mut i: usize = 0;
    while i < n
        invariant
            n == a@.len() == b@.len(),
            i <= n,
            forall|j: int| 0 <= j < i ==> a@[j] == b@[j],
        decreases n - i,
    {
        if a.get_char(i) != b.get_char(i) {
            return false;
        }
        i = i + 1;
    }
    assert(a@ =~= b@);
    true
}

/// Pairs after position `i` that do not bind `n` leave its binding as the
/// prefix up to `i` made it.
proof fn lemma_map_of_suffix_free(s: Seq<(Seq<char>, Seq<char>)>, i: int, n: Seq<char>)
    requires
        0 <= i <= s.len(),
        forall|j: int| i <= j < s.len() ==> s[j].0 != n,
    ensures
        map_of(s).contains_key(n) == map_of(s.subrange(0, i)).contains_key(n),
        map_of(s).contains_key(n) ==> map_of(s)[n] == map_of(s.subrange(0, i))[n],
    decreases s.len() - i,
{
    if s.len() == i {
        assert(s.subrange(0, i) =~= s);
    } else {
        lemma_map_of_suffix_free(s.drop_last(), i, n);
        assert(s.drop_last().subrange(0, i) =~= s.subrange(0, i));
    }
}

} // verus!
