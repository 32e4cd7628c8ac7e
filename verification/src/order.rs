//! How the library panel orders things: numbers, characters, texts
//! compared character by character, and paths compared component by
//! component, as Rust's `Ord` orders strings and paths.

use vstd::prelude::*;
use crate::paths::tail_segment;
use crate::text::chars_of;

verus! {

/// How one value compares with another.
#[derive(Debug, Clone, Copy, PartialEq, Eq, Structural)]
pub enum Order {
    /// The first comes before the second.
    Less,
    /// The two are level.
    Equal,
    /// The first comes after the second.
    Greater,
}

/// The order with its two sides swapped.
pub open spec fn flip(o: Order) -> Order {
    match o {
        Order::Less => Order::Greater,
        Order::Equal => Order::Equal,
        Order::Greater => Order::Less,
    }
}

/// The order with its two sides swapped.
pub fn reversed(o: Order) -> (r: Order)
    ensures
        r == flip(o),
{
    match o {
        Order::Less => Order::Greater,
        Order::Equal => Order::Equal,
        Order::Greater => Order::Less,
    }
}

/// How the number `a` compares with `b`.
pub open spec fn int_order(a: int, b: int) -> Order {
    if a < b {
        Order::Less
    } else if a == b {
        Order::Equal
    } else {
        Order::Greater
    }
}

/// How `a` compares with `b`.
pub fn compare_i64(a: i64, b: i64) -> (r: Order)
    ensures
        r == int_order(a as int, b as int),
{
    if a < b {
        Order::Less
    } else if a == b {
        Order::Equal
    } else {
        Order::Greater
    }
}

/// Whether `order_of` orders its values totally: swapping the sides flips the
/// answer, only equal values are level, and coming before is transitive.
pub open spec fn total<T>(order_of: spec_fn(T, T) -> Order) -> bool {
    &&& forall|x: T, y: T| #[trigger] order_of(x, y) == flip(order_of(y, x))
    &&& forall|x: T, y: T| #[trigger] order_of(x, y) == Order::Equal <==> x == y
    &&& forall|x: T, y: T, z: T|
        #[trigger] order_of(x, y) == Order::Less && #[trigger] order_of(y, z) == Order::Less ==> order_of(x, z)
            == Order::Less
}

/// `a` and `b` compared element by element with `order_of`, the first
/// difference deciding, and a sequence that runs out first coming first.
pub open spec fn lex<T>(a: Seq<T>, b: Seq<T>, order_of: spec_fn(T, T) -> Order) -> Order
    decreases a.len(),
{
    if a.len() == 0 {
        if b.len() == 0 {
            Order::Equal
        } else {
            Order::Less
        }
    } else if b.len() == 0 {
        Order::Greater
    } else if order_of(a[0], b[0]) == Order::Equal {
        lex(a.drop_first(), b.drop_first(), order_of)
    } else {
        order_of(a[0], b[0])
    }
}

proof fn lemma_lex_flip<T>(a: Seq<T>, b: Seq<T>, order_of: spec_fn(T, T) -> Order)
    requires
        total(order_of),
    ensures
        lex(a, b, order_of) == flip(lex(b, a, order_of)),
        lex(a, b, order_of) == Order::Equal <==> a == b,
    decreases a.len(),
{
    if a.len() > 0 && b.len() > 0 {
        assert(order_of(a[0], b[0]) == flip(order_of(b[0], a[0])));
        if order_of(a[0], b[0]) == Order::Equal {
            lemma_lex_flip(a.drop_first(), b.drop_first(), order_of);
            if a.drop_first() == b.drop_first() {
                assert(a =~= seq![a[0]] + a.drop_first());
                assert(b =~= seq![b[0]] + b.drop_first());
            }
        } else {
            assert(a[0] != b[0]);
        }
    } else if a.len() == 0 && b.len() > 0 {
        assert(a != b);
    } else if a.len() > 0 && b.len() == 0 {
        assert(a != b);
    } else {
        assert(a =~= b);
    }
}

proof fn lemma_lex_trans<T>(a: Seq<T>, b: Seq<T>, c: Seq<T>, order_of: spec_fn(T, T) -> Order)
    requires
        total(order_of),
        lex(a, b, order_of) == Order::Less,
        lex(b, c, order_of) == Order::Less,
    ensures
        lex(a, c, order_of) == Order::Less,
    decreases a.len(),
{
    if a.len() > 0 && c.len() > 0 {
        let ab = order_of(a[0], b[0]);
        let bc = order_of(b[0], c[0]);
        if ab == Order::Equal && bc == Order::Equal {
            assert(a[0] == b[0] && b[0] == c[0]);
            lemma_lex_trans(a.drop_first(), b.drop_first(), c.drop_first(), order_of);
        } else if ab == Order::Equal {
            assert(a[0] == b[0]);
        } else if bc == Order::Equal {
            assert(b[0] == c[0]);
        } else {
            assert(ab == Order::Less && bc == Order::Less);
        }
    }
}

/// Ordering sequences element by element is total when ordering their
/// elements is.
pub proof fn lemma_lex_total<T>(order_of: spec_fn(T, T) -> Order)
    requires
        total(order_of),
    ensures
        total(|a: Seq<T>, b: Seq<T>| lex(a, b, order_of)),
{
    let f = |a: Seq<T>, b: Seq<T>| lex(a, b, order_of);
    assert forall|x: Seq<T>, y: Seq<T>| #[trigger] f(x, y) == flip(f(y, x)) by {
        lemma_lex_flip(x, y, order_of);
    }
    assert forall|x: Seq<T>, y: Seq<T>| #[trigger] f(x, y) == Order::Equal <==> x == y by {
        lemma_lex_flip(x, y, order_of);
    }
    assert forall|x: Seq<T>, y: Seq<T>, z: Seq<T>|
        #[trigger] f(x, y) == Order::Less && #[trigger] f(y, z) == Order::Less implies f(x, z)
        == Order::Less by {
        lemma_lex_trans(x, y, z, order_of);
    }
}

/// How the character `a` compares with `b`: by their code points, which is
/// how the UTF-8 bytes of the two compare too.
pub open spec fn by_code_point() -> spec_fn(char, char) -> Order {
    |a: char, b: char| int_order(a as int, b as int)
}

/// How the text `a` compares with `b`, as `str::order_of` compares them.
pub open spec fn text_order(a: Seq<char>, b: Seq<char>) -> Order {
    lex(a, b, by_code_point())
}

/// Texts are ordered totally.
pub proof fn lemma_text_order_total()
    ensures
        forall|x: Seq<char>, y: Seq<char>| #[trigger] text_order(x, y) == flip(text_order(y, x)),
        forall|x: Seq<char>, y: Seq<char>| #[trigger] text_order(x, y) == Order::Equal <==> x == y,
        forall|x: Seq<char>, y: Seq<char>, z: Seq<char>|
            #[trigger] text_order(x, y) == Order::Less && #[trigger] text_order(y, z) == Order::Less
                ==> text_order(x, z) == Order::Less,
{
    let c = by_code_point();
    assert forall|x: char, y: char| #[trigger] c(x, y) == Order::Equal <==> x == y by {
        if x as int == y as int {
            assert(x == y);
        }
    }
    assert(total(c));
    assert forall|x: Seq<char>, y: Seq<char>| #[trigger] text_order(x, y) == flip(text_order(y, x)) by {
        lemma_lex_flip(x, y, c);
    }
    assert forall|x: Seq<char>, y: Seq<char>| #[trigger] text_order(x, y) == Order::Equal <==> x == y by {
        lemma_lex_flip(x, y, c);
    }
    assert forall|x: Seq<char>, y: Seq<char>, z: Seq<char>|
        #[trigger] text_order(x, y) == Order::Less && #[trigger] text_order(y, z) == Order::Less
            implies text_order(x, z) == Order::Less by {
        lemma_lex_trans(x, y, z, c);
    }
}

/// How the characters `a` compare with `b`, as [`text_order`] says.
pub fn compare_chars(a: &Vec<char>, b: &Vec<char>) -> (r: Order)
    ensures
        r == text_order(a@, b@),
{
    let mut i: usize = 0;
    assert(a@.skip(0) =~= a@ && b@.skip(0) =~= b@);
    loop
        invariant
            i <= a@.len(),
            i <= b@.len(),
            text_order(a@, b@) == text_order(a@.skip(i as int), b@.skip(i as int)),
        decreases a@.len() - i,
    {
        let ghost x = a@.skip(i as int);
        let ghost y = b@.skip(i as int);
        if i == a.len() {
            return if i == b.len() {
                Order::Equal
            } else {
                Order::Less
            };
        }
        if i == b.len() {
            return Order::Greater;
        }
        assert(x[0] == a@[i as int] && y[0] == b@[i as int]);
        if a[i] < b[i] {
            return Order::Less;
        }
        if a[i] > b[i] {
            return Order::Greater;
        }
        assert(x.drop_first() =~= a@.skip(i + 1));
        assert(y.drop_first() =~= b@.skip(i + 1));
        i = i + 1;
    }
}

/// How `a` compares with `b`, as [`text_order`] says.
pub fn compare_text(a: &str, b: &str) -> (r: Order)
    ensures
        r == text_order(a@, b@),
{
    compare_chars(&chars_of(a), &chars_of(b))
}

/// One component of a path.
pub enum Comp {
    /// The root, `/`, at the start of an absolute path.
    Root,
    /// A `.` at the start of a relative path.
    Here,
    /// `..`.
    Up,
    /// A name.
    Name(Seq<char>),
}

/// Where a component stands among the kinds of components.
pub open spec fn comp_rank(c: Comp) -> int {
    match c {
        Comp::Root => 0,
        Comp::Here => 1,
        Comp::Up => 2,
        Comp::Name(_) => 3,
    }
}

/// How the component `a` compares with `b`, as `Component` orders them:
/// by kind in the order above, and names by their text.
pub open spec fn by_component() -> spec_fn(Comp, Comp) -> Order {
    |a: Comp, b: Comp|
        match (a, b) {
            (Comp::Name(x), Comp::Name(y)) => text_order(x, y),
            _ => int_order(comp_rank(a), comp_rank(b)),
        }
}

/// The component a run of characters between separators stands for: none
/// for `.`, which is passed over, `..`, or a name.
pub open spec fn part_of(seg: Seq<char>) -> Seq<Comp> {
    if seg == seq!['.'] {
        Seq::empty()
    } else if seg == seq!['.', '.'] {
        seq![Comp::Up]
    } else {
        seq![Comp::Name(seg)]
    }
}

pub proof fn lemma_tail_segment_bounds(p: Seq<char>)
    ensures
        tail_segment(p).len() <= p.len(),
        p.len() > 0 && p.last() != '/' ==> tail_segment(p).len() > 0,
    decreases p.len(),
{
    if p.len() > 0 && p.last() != '/' {
        lemma_tail_segment_bounds(p.drop_last());
    }
}

/// The components of `p` after any root or leading `.`, in order: the runs
/// of characters between separators, with empty runs and `.` passed over.
pub open spec fn parts(p: Seq<char>) -> Seq<Comp>
    decreases p.len(),
{
    if p.len() == 0 {
        Seq::empty()
    } else if p.last() == '/' {
        parts(p.drop_last())
    } else {
        proof {
            lemma_tail_segment_bounds(p);
        }
        parts(p.subrange(0, p.len() - tail_segment(p).len())) + part_of(tail_segment(p))
    }
}

/// The component a path begins with: the root for an absolute path, and
/// `.` for a relative path that begins with it.
pub open spec fn start_of(p: Seq<char>) -> Seq<Comp> {
    if p.len() > 0 && p[0] == '/' {
        seq![Comp::Root]
    } else if p == seq!['.'] || (p.len() >= 2 && p[0] == '.' && p[1] == '/') {
        seq![Comp::Here]
    } else {
        Seq::empty()
    }
}

/// The components of the path `p`, as `Path::components` gives them.
pub open spec fn components(p: Seq<char>) -> Seq<Comp> {
    start_of(p) + parts(p)
}

/// How the path `a` compares with `b`, as `Path::order_of` compares them:
/// component by component.
pub open spec fn path_order(a: Seq<char>, b: Seq<char>) -> Order {
    lex(components(a), components(b), by_component())
}

/// Components are ordered totally.
pub proof fn lemma_comp_total()
    ensures
        total(by_component()),
{
    lemma_text_order_total();
    let c = by_component();
    assert forall|x: Comp, y: Comp| #[trigger] c(x, y) == flip(c(y, x)) by {
        match (x, y) {
            (Comp::Name(p), Comp::Name(q)) => {
                assert(text_order(p, q) == flip(text_order(q, p)));
            },
            _ => {},
        }
    }
    assert forall|x: Comp, y: Comp| #[trigger] c(x, y) == Order::Equal <==> x == y by {
        match (x, y) {
            (Comp::Name(p), Comp::Name(q)) => {
                assert(text_order(p, q) == Order::Equal <==> p == q);
            },
            _ => {},
        }
    }
    assert forall|x: Comp, y: Comp, z: Comp|
        #[trigger] c(x, y) == Order::Less && #[trigger] c(y, z) == Order::Less implies c(x, z)
        == Order::Less by {
        match (x, y, z) {
            (Comp::Name(p), Comp::Name(q), Comp::Name(r)) => {
                assert(text_order(p, q) == Order::Less && text_order(q, r) == Order::Less ==> text_order(p, r) == Order::Less);
            },
            _ => {},
        }
    }
}

/// Paths are ordered totally.
pub proof fn lemma_path_order_total()
    ensures
        forall|x: Seq<char>, y: Seq<char>| #[trigger] path_order(x, y) == flip(path_order(y, x)),
        forall|x: Seq<char>, y: Seq<char>, z: Seq<char>|
            #[trigger] path_order(x, y) == Order::Less && #[trigger] path_order(y, z) == Order::Less
                ==> path_order(x, z) == Order::Less,
{
    lemma_comp_total();
    lemma_lex_total(by_component());
    assert forall|x: Seq<char>, y: Seq<char>| #[trigger] path_order(x, y) == flip(path_order(y, x)) by {
        lemma_lex_flip(components(x), components(y), by_component());
    }
    assert forall|x: Seq<char>, y: Seq<char>, z: Seq<char>|
        #[trigger] path_order(x, y) == Order::Less && #[trigger] path_order(y, z) == Order::Less
            implies path_order(x, z) == Order::Less by {
        lemma_lex_trans(components(x), components(y), components(z), by_component());
    }
}

/// Two paths are level exactly when they have the same components.
pub proof fn lemma_path_order_equal(x: Seq<char>, y: Seq<char>)
    ensures
        path_order(x, y) == Order::Equal <==> components(x) == components(y),
{
    lemma_comp_total();
    lemma_lex_flip(components(x), components(y), by_component());
}

/// One component of a path, as the program holds it.
pub enum PathPart {
    /// The root.
    Root,
    /// A leading `.`.
    Here,
    /// `..`.
    Up,
    /// A name.
    Name(Vec<char>),
}

impl View for PathPart {
    type V = Comp;

    open spec fn view(&self) -> Comp {
        match self {
            PathPart::Root => Comp::Root,
            PathPart::Here => Comp::Here,
            PathPart::Up => Comp::Up,
            PathPart::Name(n) => Comp::Name(n@),
        }
    }
}

/// The views of `v`.
pub open spec fn part_views(v: Seq<PathPart>) -> Seq<Comp> {
    v.map_values(|p: PathPart| p@)
}

/// The components of `path`, as [`components`] says.
pub fn path_components(path: &str) -> (r: Vec<PathPart>)
    ensures
        part_views(r@) == components(path@),
{
    let cs = chars_of(path);
    let n = cs.len();
    let mut backwards: Vec<PathPart> = Vec::new();
    let mut end: usize = n;
    assert(cs@.subrange(0, n as int) =~= cs@);
    loop
        invariant
            end <= n == cs@.len(),
            parts(cs@) == parts(cs@.subrange(0, end as int)) + part_views(backwards@).reverse(),
        ensures
            parts(cs@) == parts(cs@.subrange(0, 0)) + part_views(backwards@).reverse(),
        decreases end,
    {
        if end == 0 {
            break;
        }
        let ghost p = cs@.subrange(0, end as int);
        if cs[end - 1] == '/' {
            assert(p.drop_last() =~= cs@.subrange(0, end - 1));
            end = end - 1;
        } else {
            let mut start: usize = end;
            while start > 0 && cs[start - 1] != '/'
                invariant
                    start <= end <= cs@.len(),
                    forall|m: int| start <= m < end ==> cs@[m] != '/',
                decreases start,
            {
                start = start - 1;
            }
            proof {
                crate::paths::lemma_tail_segment_split(p, start as int);
                assert(p.subrange(0, start as int) =~= cs@.subrange(0, start as int));
                assert(p.subrange(start as int, end as int) =~= cs@.subrange(start as int, end as int));
                if start > 0 {
                    assert(p.subrange(0, start as int).last() == '/');
                }
                assert(tail_segment(p) =~= cs@.subrange(start as int, end as int));
                lemma_tail_segment_bounds(p);
            }
            let ghost seg = cs@.subrange(start as int, end as int);
            let ghost before = part_views(backwards@);
            if end - start == 1 && cs[start] == '.' {
                assert(seg =~= seq!['.']);
                assert(part_of(seg) =~= Seq::<Comp>::empty());
            } else if end - start == 2 && cs[start] == '.' && cs[start + 1] == '.' {
                assert(seg =~= seq!['.', '.']);
                backwards.push(PathPart::Up);
                assert(part_views(backwards@) =~= before.push(Comp::Up));
            } else {
                assert(seg != seq!['.']) by {
                    if seg == seq!['.'] {
                        assert(seg.len() == 1 && seg[0] == '.');
                    }
                }
                assert(seg != seq!['.', '.']) by {
                    if seg == seq!['.', '.'] {
                        assert(seg.len() == 2 && seg[0] == '.' && seg[1] == '.');
                    }
                }
                let mut name: Vec<char> = Vec::new();
                let mut k = start;
                while k < end
                    invariant
                        start <= k <= end <= cs@.len(),
                        name@ == cs@.subrange(start as int, k as int),
                    decreases end - k,
                {
                    name.push(cs[k]);
                    k = k + 1;
                }
                backwards.push(PathPart::Name(name));
                assert(part_views(backwards@) =~= before.push(Comp::Name(seg)));
            }
            proof {
                assert(part_views(backwards@).reverse() =~= part_of(seg) + before.reverse());
            }
            end = start;
        }
    }
    assert(cs@.subrange(0, 0) =~= Seq::<char>::empty());
    assert(parts(cs@) =~= part_views(backwards@).reverse());
    let mut r: Vec<PathPart> = Vec::new();
    if n > 0 && cs[0] == '/' {
        r.push(PathPart::Root);
    } else if (n == 1 && cs[0] == '.') || (n >= 2 && cs[0] == '.' && cs[1] == '/') {
        r.push(PathPart::Here);
    }
    proof {
        if n == 1 && cs@[0] == '.' {
            assert(cs@ =~= seq!['.']);
        }
        if cs@ == seq!['.'] {
            assert(n == 1 && cs@[0] == '.');
        }
        assert(part_views(r@) =~= start_of(path@));
    }
    let mut i = backwards.len();
    let ghost back = part_views(backwards@);
    let ghost front = part_views(r@);
    while i > 0
        invariant
            i <= backwards@.len(),
            back == part_views(backwards@),
            part_views(r@) == front + back.reverse().take(back.len() - i),
        decreases i,
    {
        i = i - 1;
        let ghost before = part_views(r@);
        let item = match &backwards[i] {
            PathPart::Root => PathPart::Root,
            PathPart::Here => PathPart::Here,
            PathPart::Up => PathPart::Up,
            PathPart::Name(n) => PathPart::Name(n.clone()),
        };
        assert(item@ == back[i as int]);
        r.push(item);
        proof {
            let rev = back.reverse();
            let k = back.len() - i - 1;
            assert(rev[k] == back[i as int]);
            assert(rev.take(k + 1) =~= rev.take(k).push(rev[k]));
            assert(part_views(r@) =~= before.push(item@));
            assert(part_views(r@) =~= front + back.reverse().take(back.len() - i));
        }
    }
    assert(back.reverse().take(back.len() as int) =~= back.reverse());
    assert(part_views(r@) =~= start_of(path@) + parts(path@));
    r
}

/// How the component `a` compares with `b`.
fn compare_part(a: &PathPart, b: &PathPart) -> (r: Order)
    ensures
        r == (by_component())(a@, b@),
{
    match (a, b) {
        (PathPart::Name(x), PathPart::Name(y)) => compare_chars(x, y),
        _ => {
            let ra: i64 = match a {
                PathPart::Root => 0,
                PathPart::Here => 1,
                PathPart::Up => 2,
                PathPart::Name(_) => 3,
            };
            let rb: i64 = match b {
                PathPart::Root => 0,
                PathPart::Here => 1,
                PathPart::Up => 2,
                PathPart::Name(_) => 3,
            };
            compare_i64(ra, rb)
        },
    }
}

/// How the path `a` compares with `b`, as [`path_order`] says.
pub fn compare_paths(a: &str, b: &str) -> (r: Order)
    ensures
        r == path_order(a@, b@),
{
    let x = path_components(a);
    let y = path_components(b);
    let ghost xs = part_views(x@);
    let ghost ys = part_views(y@);
    let mut i: usize = 0;
    assert(xs.skip(0) =~= xs && ys.skip(0) =~= ys);
    loop
        invariant
            i <= x@.len(),
            i <= y@.len(),
            xs == part_views(x@),
            ys == part_views(y@),
            xs == components(a@),
            ys == components(b@),
            path_order(a@, b@) == lex(xs.skip(i as int), ys.skip(i as int), by_component()),
        decreases x@.len() - i,
    {
        let ghost p = xs.skip(i as int);
        let ghost q = ys.skip(i as int);
        if i == x.len() {
            return if i == y.len() {
                Order::Equal
            } else {
                Order::Less
            };
        }
        if i == y.len() {
            return Order::Greater;
        }
        assert(p[0] == x@[i as int]@ && q[0] == y@[i as int]@);
        let o = compare_part(&x[i], &y[i]);
        if o != Order::Equal {
            return o;
        }
        assert(p.drop_first() =~= xs.skip(i + 1));
        assert(q.drop_first() =~= ys.skip(i + 1));
        i = i + 1;
    }
}

}
