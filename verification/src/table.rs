use vstd::prelude::*;

verus! {

/// The first value bound to `c` in `ps`, if any.
pub open spec fn spec_find(ps: Seq<(char, i32)>, c: char) -> Option<i32>
    decreases ps.len(),
{
    if ps.len() == 0 {
        Option::None
    } else if ps[0].0 == c {
        Option::Some(ps[0].1)
    } else {
        spec_find(ps.drop_first(), c)
    }
}

/// The mapping an association list stands for; an earlier pair wins
/// over a later pair with the same symbol.
pub open spec fn table_model(ps: Seq<(char, i32)>) -> Map<char, i32>
    decreases ps.len(),
{
    if ps.len() == 0 {
        Map::empty()
    } else {
        table_model(ps.drop_first()).insert(ps[0].0, ps[0].1)
    }
}

proof fn lemma_model_find(ps: Seq<(char, i32)>, c: char)
    ensures
        table_model(ps).dom().contains(c) == (spec_find(ps, c) is Some),
        spec_find(ps, c) matches Option::Some(v) ==> table_model(ps)[c] == v,
    decreases ps.len(),
{
    if ps.len() > 0 {
        lemma_model_find(ps.drop_first(), c);
    }
}

proof fn lemma_model_update(ps: Seq<(char, i32)>, i: int, c: char, p: i32)
    requires
        0 <= i < ps.len(),
        ps[i].0 == c,
        forall|j: int| 0 <= j < i ==> (#[trigger] ps[j]).0 != c,
    ensures
        table_model(ps.update(i, (c, p))) == table_model(ps).insert(c, p),
    decreases ps.len(),
{
    let qs = ps.update(i, (c, p));
    if i == 0 {
        assert(qs[0] == (c, p));
        assert(qs.drop_first() =~= ps.drop_first());
        assert(table_model(ps.drop_first()).insert(ps[0].0, ps[0].1).insert(c, p)
            =~= table_model(ps.drop_first()).insert(c, p));
    } else {
        assert(qs[0] == ps[0]);
        assert(qs.drop_first() =~= ps.drop_first().update(i - 1, (c, p)));
        assert(forall|j: int|
            0 <= j < i - 1 ==> (#[trigger] ps.drop_first()[j]).0 == ps[j + 1].0);
        lemma_model_update(ps.drop_first(), i - 1, c, p);
        assert(table_model(ps.drop_first()).insert(c, p).insert(ps[0].0, ps[0].1)
            =~= table_model(ps.drop_first()).insert(ps[0].0, ps[0].1).insert(c, p));
    }
}

proof fn lemma_model_push(ps: Seq<(char, i32)>, c: char, p: i32)
    requires
        forall|j: int| 0 <= j < ps.len() ==> (#[trigger] ps[j]).0 != c,
    ensures
        table_model(ps.push((c, p))) == table_model(ps).insert(c, p),
    decreases ps.len(),
{
    let qs = ps.push((c, p));
    if ps.len() == 0 {
        assert(qs[0] == (c, p));
        assert(qs.drop_first() =~= Seq::<(char, i32)>::empty());
        assert(table_model(Seq::<(char, i32)>::empty()) == Map::<char, i32>::empty());
    } else {
        assert(qs[0] == ps[0]);
        assert(qs.drop_first() =~= ps.drop_first().push((c, p)));
        lemma_model_push(ps.drop_first(), c, p);
        assert(table_model(ps.drop_first()).insert(c, p).insert(ps[0].0, ps[0].1)
            =~= table_model(ps.drop_first()).insert(ps[0].0, ps[0].1).insert(c, p));
    }
}

/// The operator-precedence table: a mapping from single-character
/// operator symbols to integer binding strengths. It is owned by the
/// caller and passed to each parse by exclusive mutable reference;
/// parsing a `binary` operator declaration writes the declared
/// precedence into it, so later parses that share the table see it.
pub struct PrecTable {
    pairs: Vec<(char, i32)>,
}

impl View for PrecTable {
    type V = Map<char, i32>;

    closed spec fn view(&self) -> Map<char, i32> {
        table_model(self.pairs@)
    }
}

impl PrecTable {
    /// An empty table: no operator has a declared precedence.
    pub fn new() -> (r: PrecTable)
        ensures
            r@ == Map::<char, i32>::empty(),
    {
        PrecTable { pairs: Vec::new() }
    }

    /// The precedence bound to `c`, if one has been declared.
    pub fn get(&self, c: char) -> (r: Option<i32>)
        ensures
            r == if self@.dom().contains(c) {
                Option::Some(self@[c])
            } else {
                Option::None::<i32>
            },
    {
        proof {
            lemma_model_find(self.pairs@, c);
            assert(self.pairs@.skip(0) =~= self.pairs@);
        }
        let n = self.pairs.len();
        let mut i: usize = 0;
        while i < n
            invariant
                i <= n,
                n == self.pairs@.len(),
                spec_find(self.pairs@, c) == spec_find(self.pairs@.skip(i as int), c),
            decreases n - i,
        {
            let (k, v) = self.pairs[i];
            proof {
                lemma_model_find(self.pairs@, c);
                assert(self.pairs@.skip(i as int)[0] == self.pairs@[i as int]);
                assert(self.pairs@.skip(i as int).drop_first() =~= self.pairs@.skip(i + 1));
            }
            if k == c {
                return Some(v);
            }
            i = i + 1;
        }
        proof {
            assert(self.pairs@.skip(n as int) =~= Seq::<(char, i32)>::empty());
        }
        None
    }

    /// Binds `c` to `p`, replacing any earlier binding.
    pub fn insert(&mut self, c: char, p: i32)
        ensures
            final(self)@ == old(self)@.insert(c, p),
    {
        let ghost ps = self.pairs@;
        let n = self.pairs.len();
        let mut i: usize = 0;
        while i < n
            invariant
                i <= n,
                n == ps.len(),
                self.pairs@ == ps,
                ps == old(self).pairs@,
                forall|j: int| 0 <= j < i ==> (#[trigger] ps[j]).0 != c,
            decreases n - i,
        {
            let (k, _v) = self.pairs[i];
            if k == c {
                self.pairs.set(i, (c, p));
                proof {
                    lemma_model_update(ps, i as int, c, p);
                }
                return ;
            }
            i = i + 1;
        }
        self.pairs.push((c, p));
        proof {
            lemma_model_push(ps, c, p);
        }
    }
}

} // verus!
