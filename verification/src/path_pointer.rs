//! The cursor handed to every rule during the walk: the chain of segments
//! from the document root to the current node, each segment carrying the
//! discriminant it was reached by and the change state observed there, plus
//! the renderable path string used for issue reporting.
use vstd::prelude::*;

use crate::diff_core::DiffState;
use vstd::string::StrSliceExecFns;
use vstd::string::StringExecFns;

verus! {

/// A tree location plus the change states of the node and its ancestors.
/// Its mathematical view is the segment sequence: discriminant characters
/// and change state, root first.
#[derive(Debug)]
pub struct PathPointer {
    pub segs: Vec<(String, DiffState)>,
}

impl View for PathPointer {
    type V = Seq<(Seq<char>, DiffState)>;

    open spec fn view(&self) -> Seq<(Seq<char>, DiffState)> {
        self.segs@.map_values(|e: (String, DiffState)| (e.0@, e.1))
    }
}

/// One discriminant escaped for the rendered path: `~` becomes `~0` and `/`
/// becomes `~1`, so a key may itself contain separators.
pub open spec fn esc_char(c: char) -> Seq<char> {
    if c == '~' {
        seq!['~', '0']
    } else if c == '/' {
        seq!['~', '1']
    } else {
        seq![c]
    }
}

/// The first `n` characters of a discriminant, escaped.
pub open spec fn esc_upto(s: Seq<char>, n: nat) -> Seq<char>
    decreases n,
{
    if n == 0 || n > s.len() {
        Seq::empty()
    } else {
        esc_upto(s, (n - 1) as nat) + esc_char(s[n - 1])
    }
}

/// The rendered form of the first `n` segments: one `/`-prefixed escaped
/// discriminant per segment after the root.
pub open spec fn render_upto(v: Seq<(Seq<char>, DiffState)>, n: nat) -> Seq<char>
    decreases n,
{
    if n <= 1 || n > v.len() {
        Seq::empty()
    } else {
        render_upto(v, (n - 1) as nat) + seq!['/'] + esc_upto(v[n - 1].0, v[n - 1].0.len())
    }
}

impl PathPointer {
    /// The cursor for the document root.
    pub fn root(state: DiffState) -> (r: PathPointer)
        ensures
            r@.len() == 1,
            r@[0].0 == Seq::<char>::empty(),
            r@[0].1 == state,
    {
        let mut segs: Vec<(String, DiffState)> = Vec::new();
        segs.push((String::new(), state));
        PathPointer { segs }
    }

    /// The change state of the node this cursor points at.
    pub open spec fn state(&self) -> DiffState
        recommends
            self@.len() > 0,
    {
        self@.last().1
    }

    /// A cursor for a child of this node.
    pub fn child(&self, key: &String, state: DiffState) -> (r: PathPointer)
        ensures
            r@ == self@.push((key@, state)),
            r.state() == state,
    {
        let mut segs = self.dup_segs();
        segs.push((key.clone(), state));
        let r = PathPointer { segs };
        proof {
            assert(r@ =~= self@.push((key@, state)));
        }
        r
    }

    fn dup_segs(&self) -> (r: Vec<(String, DiffState)>)
        ensures
            r@.len() == self.segs@.len(),
            forall|i: int|
                0 <= i < self.segs@.len() ==> (#[trigger] r@[i]).0@ == self.segs@[i].0@ && r@[i].1
                    == self.segs@[i].1,
    {
        let mut r: Vec<(String, DiffState)> = Vec::new();
        let mut i: usize = 0;
        while i < self.segs.len()
            invariant
                0 <= i <= self.segs@.len(),
                r@.len() == i,
                forall|j: int|
                    0 <= j < i ==> (#[trigger] r@[j]).0@ == self.segs@[j].0@ && r@[j].1
                        == self.segs@[j].1,
            decreases self.segs@.len() - i,
        {
            let k = self.segs[i].0.clone();
            let s = self.segs[i].1;
            r.push((k, s));
            i = i + 1;
        }
        r
    }

    /// A copy of this cursor, segment for segment.
    pub fn duplicate(&self) -> (r: PathPointer)
        ensures
            r@ == self@,
    {
        let r = PathPointer { segs: self.dup_segs() };
        proof {
            assert(r@ =~= self@);
        }
        r
    }

    /// The cursor of the enclosing node; at the root, the root itself.
    pub fn parent(&self) -> (r: PathPointer)
        ensures
            self@.len() > 1 ==> r@ == self@.drop_last(),
            self@.len() <= 1 ==> r@ == self@,
    {
        let mut segs = self.dup_segs();
        if segs.len() > 1 {
            let _ = segs.pop();
        }
        let r = PathPointer { segs };
        proof {
            if self@.len() > 1 {
                assert(r@ =~= self@.drop_last());
            } else {
                assert(r@ =~= self@);
            }
        }
        r
    }

    fn has_state(&self, state: DiffState) -> (r: bool)
        ensures
            r == (self@.len() > 0 && self.state() == state),
    {
        if self.segs.len() == 0 {
            return false;
        }
        let s = self.segs[self.segs.len() - 1].1;
        s == state
    }

    pub fn is_same(&self) -> (r: bool)
        ensures
            r == (self@.len() > 0 && self.state() == DiffState::Same),
    {
        self.has_state(DiffState::Same)
    }

    pub fn is_added(&self) -> (r: bool)
        ensures
            r == (self@.len() > 0 && self.state() == DiffState::Added),
    {
        self.has_state(DiffState::Added)
    }

    pub fn is_removed(&self) -> (r: bool)
        ensures
            r == (self@.len() > 0 && self.state() == DiffState::Removed),
    {
        self.has_state(DiffState::Removed)
    }

    pub fn is_updated(&self) -> (r: bool)
        ensures
            r == (self@.len() > 0 && self.state() == DiffState::Updated),
    {
        self.has_state(DiffState::Updated)
    }

    /// Added or updated: the node carries fresh content in the new version.
    pub fn is_upserted(&self) -> (r: bool)
        ensures
            r == (self@.len() > 0 && (self.state() == DiffState::Added || self.state()
                == DiffState::Updated)),
    {
        self.has_state(DiffState::Added) || self.has_state(DiffState::Updated)
    }

    /// The renderable path string of this location: every segment after the
    /// root contributes a `/` and its escaped discriminant.
    pub fn render(&self) -> (r: String)
        ensures
            r@ == render_upto(self@, self@.len()),
    {
        let mut out = String::new();
        let n = self.segs.len();
        if n <= 1 {
            return out;
        }
        let mut i: usize = 1;
        while i < n
            invariant
                1 <= i <= n,
                n == self.segs@.len(),
                out@ == render_upto(self@, i as nat),
            decreases n - i,
        {
            out.append("/");
            append_escaped(&mut out, &self.segs[i].0);
            proof {
                assert(self@[i as int].0 == self.segs@[i as int].0@);
                reveal_strlit("/");
                assert("/"@ =~= seq!['/']);
                assert(out@ =~= render_upto(self@, (i + 1) as nat));
            }
            i = i + 1;
        }
        out
    }
}

/// Append one discriminant to the rendered path, escaped.
fn append_escaped(out: &mut String, key: &String)
    ensures
        final(out)@ == old(out)@ + esc_upto(key@, key@.len()),
{
    let s = key.as_str();
    let n = s.unicode_len();
    let mut j: usize = 0;
    while j < n
        invariant
            0 <= j <= n,
            n == key@.len(),
            s@ == key@,
            out@ == old(out)@ + esc_upto(key@, j as nat),
        decreases n - j,
    {
        let c = s.get_char(j);
        if c == '~' {
            out.append("~0");
            proof {
                reveal_strlit("~0");
                assert(esc_char(key@[j as int]) =~= "~0"@);
            }
        } else if c == '/' {
            out.append("~1");
            proof {
                reveal_strlit("~1");
                assert(esc_char(key@[j as int]) =~= "~1"@);
            }
        } else {
            let piece = s.substring_char(j, j + 1);
            out.append(piece);
            proof {
                assert(esc_char(key@[j as int]) =~= piece@);
            }
        }
        proof {
            assert(out@ =~= old(out)@ + esc_upto(key@, (j + 1) as nat));
        }
        j = j + 1;
    }
}

} // verus!
