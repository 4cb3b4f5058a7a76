//! The bounds resolver: derive the rendering viewport from explicit
//! override strings or from the lines of a bounds file.

use vstd::prelude::*;
use vstd::seq_lib::*;
use vstd::string::StrSliceExecFns;

use crate::errors::ConfigError;
use crate::floatlit::float_literal;
use crate::floatlit::is_float_literal;
use crate::text::spec_split_spaces;
use crate::text::spec_trim;
use crate::text::split_spaces;
use crate::text::trim;
use crate::text::views_of;

verus! {

/// Every token in the sequence is a floating-point literal.
pub open spec fn all_float(tokens: Seq<Seq<char>>) -> bool {
    forall|k: int| 0 <= k < tokens.len() ==> is_float_literal(#[trigger] tokens[k])
}

/// The coordinate tokens of one bounds line: split on spaces, trim each
/// piece, keep the nonempty ones.
pub open spec fn spec_clean_tokens(pieces: Seq<Seq<char>>) -> Seq<Seq<char>>
    decreases pieces.len(),
{
    if pieces.len() == 0 {
        Seq::empty()
    } else {
        let rest = spec_clean_tokens(pieces.drop_last());
        let t = spec_trim(pieces.last());
        if t.len() > 0 {
            rest.push(t)
        } else {
            rest
        }
    }
}

/// The coordinate tokens of one bounds line.
pub open spec fn spec_line_tokens(line: Seq<char>) -> Seq<Seq<char>> {
    spec_clean_tokens(spec_split_spaces(line))
}

proof fn lemma_clean_tokens_prefix(pieces: Seq<Seq<char>>, j: int)
    requires
        0 <= j <= pieces.len(),
    ensures
        spec_clean_tokens(pieces.take(j)).is_prefix_of(spec_clean_tokens(pieces)),
    decreases pieces.len() - j,
{
    if j == pieces.len() {
        assert(pieces.take(j) =~= pieces);
        let c = spec_clean_tokens(pieces);
        assert(c =~= c.subrange(0, c.len() as int));
    } else {
        lemma_clean_tokens_prefix(pieces, j + 1);
        assert(pieces.take(j + 1).drop_last() =~= pieces.take(j));
        let a = spec_clean_tokens(pieces.take(j));
        let b = spec_clean_tokens(pieces.take(j + 1));
        let c = spec_clean_tokens(pieces);
        assert(a.is_prefix_of(b));
        assert(a =~= c.subrange(0, a.len() as int)) by {
            assert(forall|k: int| 0 <= k < a.len() ==> a[k] == b[k]);
            assert(forall|k: int| 0 <= k < b.len() ==> b[k] == c[k]);
        }
    }
}

/// Read one bounds line into its coordinate tokens.  Succeeds exactly when
/// every token is a floating-point literal; any other token rejects the
/// whole line.
pub fn read_bounds(line: &str) -> (r: Result<Vec<String>, ConfigError>)
    ensures
        r is Ok <==> all_float(spec_line_tokens(line@)),
        r is Ok ==> views_of(r->Ok_0@) == spec_line_tokens(line@),
        r is Err ==> r->Err_0 == ConfigError::ParseFloat,
{
    let pieces = split_spaces(line);
    let mut out: Vec<String> = Vec::new();
    let mut i: usize = 0;
    proof {
        assert(views_of(pieces@).take(0) =~= Seq::<Seq<char>>::empty());
        assert(views_of(out@) =~= Seq::<Seq<char>>::empty());
    }
    while i < pieces.len()
        invariant
            i <= pieces@.len(),
            views_of(pieces@) == spec_split_spaces(line@),
            views_of(out@) == spec_clean_tokens(views_of(pieces@).take(i as int)),
            all_float(views_of(out@)),
        decreases pieces@.len() - i,
    {
        let ghost ps = views_of(pieces@);
        proof {
            assert(ps.take(i + 1).drop_last() =~= ps.take(i as int));
            assert(ps.take(i + 1).last() == ps[i as int]);
        }
        let t = trim(pieces[i].as_str());
        if t.as_str().unicode_len() > 0 {
            proof {
                assert(t@.len() > 0);
            }
            if !float_literal(t.as_str()) {
                proof {
                    lemma_clean_tokens_prefix(ps, i + 1);
                    let c = spec_clean_tokens(ps);
                    let b = spec_clean_tokens(ps.take(i + 1));
                    assert(b == views_of(out@).push(t@));
                    assert(b =~= c.subrange(0, b.len() as int));
                    assert(b[b.len() - 1] == t@);
                    assert(c.subrange(0, b.len() as int)[b.len() - 1] == c[b.len() - 1]);
                    assert(c[views_of(out@).len() as int] == t@);
                    assert(!all_float(spec_line_tokens(line@)));
                }
                return Err(ConfigError::ParseFloat);
            }
            let ghost pre = views_of(out@);
            out.push(t);
            proof {
                assert(views_of(out@) =~= pre.push(t@));
            }
        } else {
            proof {
                assert(t@.len() == 0);
            }
        }
        i = i + 1;
    }
    proof {
        assert(views_of(pieces@).take(pieces@.len() as int) =~= views_of(pieces@));
    }
    Ok(out)
}

/// A line of the bounds file counts only if it has content after trimming
/// and that content is not a comment.
pub open spec fn is_usable_line(line: Seq<char>) -> bool {
    spec_trim(line).len() > 0 && spec_trim(line)[0] != '#'
}

/// The usable lines of a bounds file, in order: blank lines and comment
/// lines are skipped.
pub open spec fn spec_usable_lines(lines: Seq<Seq<char>>) -> Seq<Seq<char>>
    decreases lines.len(),
{
    if lines.len() == 0 {
        Seq::empty()
    } else {
        let rest = spec_usable_lines(lines.drop_last());
        if is_usable_line(lines.last()) {
            rest.push(lines.last())
        } else {
            rest
        }
    }
}

fn usable_lines(lines: &Vec<String>) -> (u: Vec<String>)
    ensures
        views_of(u@) == spec_usable_lines(views_of(lines@)),
{
    let mut u: Vec<String> = Vec::new();
    let mut i: usize = 0;
    proof {
        assert(views_of(lines@).take(0) =~= Seq::<Seq<char>>::empty());
        assert(views_of(u@) =~= Seq::<Seq<char>>::empty());
    }
    while i < lines.len()
        invariant
            i <= lines@.len(),
            views_of(u@) == spec_usable_lines(views_of(lines@).take(i as int)),
        decreases lines@.len() - i,
    {
        let ghost ls = views_of(lines@);
        proof {
            assert(ls.take(i + 1).drop_last() =~= ls.take(i as int));
            assert(ls.take(i + 1).last() == ls[i as int]);
        }
        let t = trim(lines[i].as_str());
        let keep = t.as_str().unicode_len() > 0 && t.as_str().get_char(0) != '#';
        proof {
            assert(t@.len() > 0 ==> t@[0] == spec_trim(ls[i as int])[0]);
            assert(keep == is_usable_line(ls[i as int]));
        }
        if keep {
            let ghost pre = views_of(u@);
            u.push(lines[i].clone());
            proof {
                assert(views_of(u@) =~= pre.push(ls[i as int]));
            }
        }
        i = i + 1;
    }
    proof {
        assert(views_of(lines@).take(lines@.len() as int) =~= views_of(lines@));
    }
    u
}

/// The resolved rendering viewport: one minimum and one maximum coordinate
/// token per spatial dimension, each a validated floating-point literal.
#[derive(Clone, Debug, PartialEq, Eq)]
pub struct Bounds {
    pub min: Vec<String>,
    pub max: Vec<String>,
}

impl Bounds {
    /// Both coordinate lists have the same supported dimension and hold
    /// only floating-point literals.
    pub open spec fn wf(self) -> bool {
        &&& self.min@.len() == self.max@.len()
        &&& (self.min@.len() == 2 || self.min@.len() == 3)
        &&& all_float(views_of(self.min@))
        &&& all_float(views_of(self.max@))
    }

    /// The number of spatial dimensions.
    pub fn dimension(&self) -> (d: usize)
        ensures
            d == self.min@.len(),
    {
        self.min.len()
    }
}

/// What resolving two bounds lines yields: the coordinate tokens of both,
/// or the error that rejects them.
pub open spec fn spec_resolve_lines(min_line: Seq<char>, max_line: Seq<char>) -> Result<
    (Seq<Seq<char>>, Seq<Seq<char>>),
    ConfigError,
> {
    let mts = spec_line_tokens(min_line);
    let xts = spec_line_tokens(max_line);
    if !all_float(mts) || !all_float(xts) {
        Err(ConfigError::ParseFloat)
    } else if mts.len() != xts.len() {
        Err(ConfigError::DimensionMismatch)
    } else if mts.len() != 2 && mts.len() != 3 {
        Err(ConfigError::UnsupportedDimension)
    } else {
        Ok((mts, xts))
    }
}

/// Resolve the viewport from one minimum-bounds line and one
/// maximum-bounds line.
pub fn resolve_bounds_lines(min_line: &str, max_line: &str) -> (r: Result<Bounds, ConfigError>)
    ensures
        r is Ok <==> spec_resolve_lines(min_line@, max_line@) is Ok,
        r is Ok ==> r->Ok_0.wf() && views_of(r->Ok_0.min@) == spec_line_tokens(min_line@)
            && views_of(r->Ok_0.max@) == spec_line_tokens(max_line@),
        r is Err ==> r->Err_0 == spec_resolve_lines(min_line@, max_line@)->Err_0,
{
    let min = match read_bounds(min_line) {
        Ok(v) => v,
        Err(e) => {
            return Err(e);
        },
    };
    let max = match read_bounds(max_line) {
        Ok(v) => v,
        Err(e) => {
            return Err(e);
        },
    };
    if min.len() != max.len() {
        return Err(ConfigError::DimensionMismatch);
    }
    if !(min.len() == 2 || min.len() == 3) {
        return Err(ConfigError::UnsupportedDimension);
    }
    Ok(Bounds { min, max })
}

/// What resolving a whole bounds file yields: its first two usable lines
/// are the minimum and maximum bounds, in that order.
pub open spec fn spec_resolve_file(lines: Seq<Seq<char>>) -> Result<
    (Seq<Seq<char>>, Seq<Seq<char>>),
    ConfigError,
> {
    let u = spec_usable_lines(lines);
    if u.len() == 0 {
        Err(ConfigError::MissingMinBounds)
    } else if u.len() == 1 {
        Err(ConfigError::MissingMaxBounds)
    } else {
        spec_resolve_lines(u[0], u[1])
    }
}

/// Resolve the viewport from the lines of a bounds file.
pub fn resolve_bounds_file(lines: &Vec<String>) -> (r: Result<Bounds, ConfigError>)
    ensures
        r is Ok <==> spec_resolve_file(views_of(lines@)) is Ok,
        r is Ok ==> r->Ok_0.wf() && views_of(r->Ok_0.min@) == spec_line_tokens(
            spec_usable_lines(views_of(lines@))[0],
        ) && views_of(r->Ok_0.max@) == spec_line_tokens(spec_usable_lines(views_of(lines@))[1]),
        r is Err ==> r->Err_0 == spec_resolve_file(views_of(lines@))->Err_0,
{
    let u = usable_lines(lines);
    if u.len() == 0 {
        return Err(ConfigError::MissingMinBounds);
    }
    if u.len() == 1 {
        return Err(ConfigError::MissingMaxBounds);
    }
    resolve_bounds_lines(u[0].as_str(), u[1].as_str())
}

/// The view of an optional pair of override strings.
pub open spec fn explicit_view(explicit: Option<(String, String)>) -> Option<
    (Seq<char>, Seq<char>),
> {
    match explicit {
        Some(pair) => Some((pair.0@, pair.1@)),
        None => None,
    }
}

/// What resolving the viewport yields: explicit override strings take
/// precedence; only without them is the bounds file consulted.
pub open spec fn spec_resolve(
    explicit: Option<(Seq<char>, Seq<char>)>,
    file_lines: Seq<Seq<char>>,
) -> Result<(Seq<Seq<char>>, Seq<Seq<char>>), ConfigError> {
    match explicit {
        Some(pair) => spec_resolve_lines(pair.0, pair.1),
        None => spec_resolve_file(file_lines),
    }
}

/// Resolve the viewport: from the explicit override strings when they are
/// given, else from the lines of the bounds file.
pub fn resolve_bounds(explicit: &Option<(String, String)>, file_lines: &Vec<String>) -> (r: Result<
    Bounds,
    ConfigError,
>)
    ensures
        r is Ok <==> spec_resolve(explicit_view(*explicit), views_of(file_lines@)) is Ok,
        r is Ok ==> r->Ok_0.wf(),
        r is Err ==> r->Err_0 == spec_resolve(explicit_view(*explicit), views_of(file_lines@))->Err_0,
{
    match explicit {
        Some(pair) => resolve_bounds_lines(pair.0.as_str(), pair.1.as_str()),
        None => resolve_bounds_file(file_lines),
    }
}

/// Explicit overrides are authoritative: with them given, the resolved
/// bounds are the same whatever the bounds file holds — the file does not
/// enter the result at all.
pub proof fn lemma_override_ignores_file(
    min_line: Seq<char>,
    max_line: Seq<char>,
    file_a: Seq<Seq<char>>,
    file_b: Seq<Seq<char>>,
)
    ensures
        spec_resolve(Some((min_line, max_line)), file_a) == spec_resolve(
            Some((min_line, max_line)),
            file_b,
        ),
{
}

} // verus!
