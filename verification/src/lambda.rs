//! Qualified Lambda function identifiers.
//!
//! A qualified ARN has eight colon-delimited components:
//! `arn:{partition}:lambda:{region}:{account_id}:function:{name}:{version}`.
//! The version component is the eighth piece and may itself contain colons;
//! the parser therefore splits off at most seven separators and keeps the
//! rest whole.

use vstd::prelude::*;
use vstd::string::*;

verus! {

/// Index of the first colon of `s`, or `s.len()` when there is none.
pub open spec fn first_colon(s: Seq<char>) -> int
    decreases s.len(),
{
    if s.len() == 0 {
        0
    } else if s[0] == ':' {
        0
    } else {
        1 + first_colon(s.drop_first())
    }
}

/// The first colon sits in bounds, is a colon, and nothing before it is one.
pub proof fn lemma_first_colon(s: Seq<char>)
    ensures
        0 <= first_colon(s) <= s.len(),
        first_colon(s) < s.len() ==> s[first_colon(s)] == ':',
        forall|j: int| 0 <= j < first_colon(s) ==> s[j] != ':',
    decreases s.len(),
{
    if s.len() > 0 && s[0] != ':' {
        lemma_first_colon(s.drop_first());
        assert forall|j: int| 0 <= j < first_colon(s) implies s[j] != ':' by {
            if j > 0 {
                assert(s.drop_first()[j - 1] == s[j]);
            }
        }
        if first_colon(s) < s.len() {
            assert(s.drop_first()[first_colon(s.drop_first())] == s[first_colon(s)]);
        }
    }
}

/// Splits `s` on colons into at most `n` pieces; the last piece keeps any
/// remaining colons.
pub open spec fn splitn_colon(s: Seq<char>, n: nat) -> Seq<Seq<char>>
    decreases n,
{
    if n <= 1 || first_colon(s) == s.len() {
        seq![s]
    } else {
        seq![s.take(first_colon(s))] + splitn_colon(
            s.skip(first_colon(s) + 1),
            (n - 1) as nat,
        )
    }
}

/// Reasons an ARN string is not a qualified Lambda function ARN.
#[derive(Debug, Clone, Copy, PartialEq, Eq, Structural)]
pub enum InvalidLambdaARN {
    /// A qualified ARN must have 8 components delimited by `:`.
    InvalidFormat,
    /// A qualified ARN needs a version or alias suffix.
    MissingVersionSuffix,
    /// First component of the ARN must be `arn`.
    InvalidPrefix,
    /// ARN must refer to a `function` resource.
    InvalidResourceType,
    /// Partition, service, region, account id, function name and version
    /// must all be non-empty.
    InvalidComponent,
    /// ARN must be for the lambda service.
    InvalidService,
    /// No valid URI can be formed for this ARN; likely malformed.
    InvalidURI,
}

/// Mathematical model of a qualified Lambda ARN: its five variable
/// components.
pub struct LambdaARNModel {
    pub partition: Seq<char>,
    pub region: Seq<char>,
    pub account_id: Seq<char>,
    pub name: Seq<char>,
    pub version: Seq<char>,
}

/// A qualified Lambda function identifier.
#[derive(Debug, Clone, PartialEq, Eq)]
pub struct LambdaARN {
    /// Cloud partition, such as a public or governmental one.
    pub partition: String,
    /// Deployment region.
    pub region: String,
    /// Account owning the function.
    pub account_id: String,
    /// Function name.
    pub name: String,
    /// Version or alias suffix; may itself contain colons.
    pub version: String,
}

impl View for LambdaARN {
    type V = LambdaARNModel;

    open spec fn view(&self) -> LambdaARNModel {
        LambdaARNModel {
            partition: self.partition@,
            region: self.region@,
            account_id: self.account_id@,
            name: self.name@,
            version: self.version@,
        }
    }
}

/// What parsing an ARN string yields: the split must produce all eight
/// pieces, the fixed pieces must match, and the variable pieces must be
/// non-empty.  Errors are reported in that order.
pub open spec fn spec_parse_arn(s: Seq<char>) -> Result<LambdaARNModel, InvalidLambdaARN> {
    let ps = splitn_colon(s, 8);
    if ps.len() < 7 {
        Err(InvalidLambdaARN::InvalidFormat)
    } else if ps.len() == 7 {
        Err(InvalidLambdaARN::MissingVersionSuffix)
    } else if ps[0] != "arn"@ {
        Err(InvalidLambdaARN::InvalidPrefix)
    } else if ps[5] != "function"@ {
        Err(InvalidLambdaARN::InvalidResourceType)
    } else if ps[2] != "lambda"@ {
        Err(InvalidLambdaARN::InvalidService)
    } else if ps[1].len() == 0 || ps[3].len() == 0 || ps[4].len() == 0 || ps[6].len() == 0 {
        Err(InvalidLambdaARN::InvalidComponent)
    } else if ps[7].len() == 0 {
        Err(InvalidLambdaARN::MissingVersionSuffix)
    } else {
        Ok(
            LambdaARNModel {
                partition: ps[1],
                region: ps[3],
                account_id: ps[4],
                name: ps[6],
                version: ps[7],
            },
        )
    }
}

/// The model view of a parse result.
pub open spec fn arn_result_view(r: Result<LambdaARN, InvalidLambdaARN>) -> Result<
    LambdaARNModel,
    InvalidLambdaARN,
> {
    match r {
        Ok(a) => Ok(a@),
        Err(e) => Err(e),
    }
}

/// The canonical rendering of a qualified Lambda ARN.
pub open spec fn arn_render(m: LambdaARNModel) -> Seq<char> {
    "arn:"@ + m.partition + ":lambda:"@ + m.region + ":"@ + m.account_id + ":function:"@ + m.name
        + ":"@ + m.version
}

/// Components that render to a parseable ARN: the four single-piece
/// components hold no colon, and every variable component is non-empty.
pub open spec fn arn_components_wf(m: LambdaARNModel) -> bool {
    &&& !m.partition.contains(':')
    &&& !m.region.contains(':')
    &&& !m.account_id.contains(':')
    &&& !m.name.contains(':')
    &&& m.partition.len() > 0
    &&& m.region.len() > 0
    &&& m.account_id.len() > 0
    &&& m.name.len() > 0
    &&& m.version.len() > 0
}

/// The first colon of a sequence sits exactly where the first colon is.
proof fn lemma_first_colon_at(s: Seq<char>, n: int)
    requires
        0 <= n < s.len(),
        s[n] == ':',
        forall|j: int| 0 <= j < n ==> s[j] != ':',
    ensures
        first_colon(s) == n,
{
    lemma_first_colon(s);
    if first_colon(s) < n {
        assert(s[first_colon(s)] != ':');
    }
    if first_colon(s) > n {
        assert(s[n] != ':');
    }
}

/// Splitting a colon-free piece, a colon, and a remainder takes off exactly
/// that piece.
proof fn lemma_splitn_cons(piece: Seq<char>, rest: Seq<char>, n: nat)
    requires
        n >= 2,
        !piece.contains(':'),
    ensures
        splitn_colon(piece + seq![':'] + rest, n) == seq![piece] + splitn_colon(
            rest,
            (n - 1) as nat,
        ),
{
    let s = piece + seq![':'] + rest;
    assert forall|j: int| 0 <= j < piece.len() implies s[j] != ':' by {
        assert(s[j] == piece[j]);
        if piece[j] == ':' {
            assert(piece.contains(':'));
        }
    }
    assert(s[piece.len() as int] == ':');
    lemma_first_colon_at(s, piece.len() as int);
    assert(s.take(piece.len() as int) =~= piece);
    assert(s.skip(piece.len() + 1 as int) =~= rest);
}

/// Rendering well-formed components and parsing the string gives back
/// exactly those components: nothing of the ARN is lost on the wire.
pub proof fn lemma_arn_render_roundtrip(m: LambdaARNModel)
    requires
        arn_components_wf(m),
    ensures
        spec_parse_arn(arn_render(m)) == Ok::<LambdaARNModel, InvalidLambdaARN>(m),
{
    reveal_strlit("arn:");
    reveal_strlit("arn");
    reveal_strlit(":lambda:");
    reveal_strlit("lambda");
    reveal_strlit(":");
    reveal_strlit(":function:");
    reveal_strlit("function");
    let arn_lit = "arn"@;
    let lambda_lit = "lambda"@;
    let function_lit = "function"@;
    assert(!arn_lit.contains(':')) by {
        if arn_lit.contains(':') {
            let i = choose|i: int| 0 <= i < arn_lit.len() && arn_lit[i] == ':';
            assert(arn_lit[0] == 'a' && arn_lit[1] == 'r' && arn_lit[2] == 'n');
        }
    }
    assert(!lambda_lit.contains(':')) by {
        if lambda_lit.contains(':') {
            let i = choose|i: int| 0 <= i < lambda_lit.len() && lambda_lit[i] == ':';
            assert(lambda_lit[0] == 'l' && lambda_lit[1] == 'a' && lambda_lit[2] == 'm'
                && lambda_lit[3] == 'b' && lambda_lit[4] == 'd' && lambda_lit[5] == 'a');
        }
    }
    assert(!function_lit.contains(':')) by {
        if function_lit.contains(':') {
            let i = choose|i: int| 0 <= i < function_lit.len() && function_lit[i] == ':';
            assert(function_lit[0] == 'f' && function_lit[1] == 'u' && function_lit[2] == 'n'
                && function_lit[3] == 'c' && function_lit[4] == 't' && function_lit[5] == 'i'
                && function_lit[6] == 'o' && function_lit[7] == 'n');
        }
    }
    let tail6 = name_and_version(m);
    let tail5 = function_lit + seq![':'] + tail6;
    let tail4 = m.account_id + seq![':'] + tail5;
    let tail3 = m.region + seq![':'] + tail4;
    let tail2 = lambda_lit + seq![':'] + tail3;
    let tail1 = m.partition + seq![':'] + tail2;
    let s = arn_render(m);
    assert(s =~= arn_lit + seq![':'] + tail1);
    lemma_splitn_cons(arn_lit, tail1, 8);
    lemma_splitn_cons(m.partition, tail2, 7);
    lemma_splitn_cons(lambda_lit, tail3, 6);
    lemma_splitn_cons(m.region, tail4, 5);
    lemma_splitn_cons(m.account_id, tail5, 4);
    lemma_splitn_cons(function_lit, tail6, 3);
    lemma_splitn_cons(m.name, m.version, 2);
    let ps = splitn_colon(s, 8);
    assert(ps =~= seq![
        arn_lit,
        m.partition,
        lambda_lit,
        m.region,
        m.account_id,
        function_lit,
        m.name,
        m.version,
    ]);
    assert(spec_parse_arn(s) == Ok::<LambdaARNModel, InvalidLambdaARN>(
        LambdaARNModel {
            partition: ps[1],
            region: ps[3],
            account_id: ps[4],
            name: ps[6],
            version: ps[7],
        },
    ));
}

/// The last two components of a rendered ARN.
spec fn name_and_version(m: LambdaARNModel) -> Seq<char> {
    m.name + seq![':'] + m.version
}

/// Whether two strings hold the same characters.
fn str_eq(a: &str, b: &str) -> (r: bool)
    ensures
        r == (a@ == b@),
{
    let n: usize = a.unicode_len();
    let m: usize = b.unicode_len();
    if n != m {
        return false;
    }
    let mut i: usize = 0;
    while i < n
        invariant
            i <= n,
            n == a@.len(),
            n == b@.len(),
            forall|j: int| 0 <= j < i ==> a@[j] == b@[j],
        decreases n - i,
    {
        if a.get_char(i) != b.get_char(i) {
            return false;
        }
        i = i + 1;
    }
    proof {
        assert(a@ =~= b@);
    }
    true
}

/// Index of the first colon of `s`, or its length when there is none.
fn find_first_colon(s: &str) -> (i: usize)
    ensures
        i == first_colon(s@),
        i <= s@.len(),
{
    let n: usize = s.unicode_len();
    let mut i: usize = 0;
    proof {
        lemma_first_colon(s@);
    }
    while i < n
        invariant
            i <= n,
            n == s@.len(),
            forall|j: int| 0 <= j < i ==> s@[j] != ':',
        decreases n - i,
    {
        if s.get_char(i) == ':' {
            proof {
                lemma_first_colon(s@);
            }
            return i;
        }
        i = i + 1;
    }
    proof {
        lemma_first_colon(s@);
    }
    i
}

impl LambdaARN {
    /// Deployment region of the function.
    pub fn region(&self) -> (r: &str)
        ensures
            r@ == self.region@,
    {
        self.region.as_str()
    }

    /// The canonical string form of the ARN.
    pub fn to_arn_string(&self) -> (r: String)
        ensures
            r@ == arn_render(self@),
    {
        let mut out: String = "arn:".to_owned();
        out.append(self.partition.as_str());
        out.append(":lambda:");
        out.append(self.region.as_str());
        out.append(":");
        out.append(self.account_id.as_str());
        out.append(":function:");
        out.append(self.name.as_str());
        out.append(":");
        out.append(self.version.as_str());
        proof {
            assert(out@ =~= arn_render(self@));
        }
        out
    }

    /// Parses a qualified Lambda function ARN: eight colon-delimited
    /// components, with the fixed `arn`, `lambda` and `function` markers in
    /// place and every variable component non-empty.  An unqualified ARN,
    /// one without its version suffix, is refused as such.
    pub fn from_str(s: &str) -> (r: Result<LambdaARN, InvalidLambdaARN>)
        ensures
            arn_result_view(r) == spec_parse_arn(s@),
    {
        let mut pieces: Vec<String> = Vec::new();
        let mut rest: &str = s;
        let mut count: usize = 0;
        let mut more = true;
        proof {
            assert(pieces.deep_view() + splitn_colon(rest@, 8) =~= splitn_colon(s@, 8));
        }
        while count < 7 && more
            invariant
                count <= 7,
                count == pieces.deep_view().len(),
                more ==> pieces.deep_view() + splitn_colon(rest@, (8 - count) as nat)
                    =~= splitn_colon(s@, 8),
                !more ==> first_colon(rest@) == rest@.len() && pieces.deep_view() + splitn_colon(
                    rest@,
                    (8 - count) as nat,
                ) =~= splitn_colon(s@, 8),
            decreases 8 - count + (if more { 1int } else { 0int }),
        {
            let i = find_first_colon(rest);
            let n: usize = rest.unicode_len();
            if i == n {
                more = false;
            } else {
                let ghost old_pieces = pieces.deep_view();
                let ghost old_rest = rest@;
                proof {
                    lemma_first_colon(old_rest);
                }
                let piece = rest.substring_char(0, i).to_owned();
                pieces.push(piece);
                rest = rest.substring_char(i + 1, n);
                count = count + 1;
                proof {
                    assert(old_rest.take(first_colon(old_rest)) =~= old_rest.subrange(0, i as int));
                    assert(old_rest.skip(first_colon(old_rest) + 1) =~= old_rest.subrange(
                        i + 1,
                        old_rest.len() as int,
                    ));
                    assert(splitn_colon(old_rest, (8 - (count - 1)) as nat) =~= seq![
                        old_rest.take(first_colon(old_rest)),
                    ] + splitn_colon(
                        old_rest.skip(first_colon(old_rest) + 1),
                        (8 - count) as nat,
                    ));
                    assert(pieces.deep_view() =~= old_pieces.push(rest@.subrange(
                        0,
                        0,
                    ).add(old_rest.subrange(0, i as int))));
                    assert(pieces.deep_view() + splitn_colon(rest@, (8 - count) as nat)
                        =~= splitn_colon(s@, 8));
                }
            }
        }
        let ghost ps = splitn_colon(s@, 8);
        if count < 7 {
            proof {
                assert(splitn_colon(rest@, (8 - count) as nat) =~= seq![rest@]);
                assert(ps.len() == count + 1);
            }
            if count < 6 {
                return Err(InvalidLambdaARN::InvalidFormat);
            }
            return Err(InvalidLambdaARN::MissingVersionSuffix);
        }
        proof {
            assert(splitn_colon(rest@, 1) =~= seq![rest@]);
            assert(ps.len() == 8);
            assert(ps[7] == rest@);
            assert(forall|k: int| 0 <= k < 7 ==> ps[k] == pieces.deep_view()[k]);
        }
        if !str_eq(pieces[0].as_str(), "arn") {
            return Err(InvalidLambdaARN::InvalidPrefix);
        }
        if !str_eq(pieces[5].as_str(), "function") {
            return Err(InvalidLambdaARN::InvalidResourceType);
        }
        if !str_eq(pieces[2].as_str(), "lambda") {
            return Err(InvalidLambdaARN::InvalidService);
        }
        if pieces[1].as_str().unicode_len() == 0 || pieces[3].as_str().unicode_len() == 0
            || pieces[4].as_str().unicode_len() == 0 || pieces[6].as_str().unicode_len() == 0 {
            return Err(InvalidLambdaARN::InvalidComponent);
        }
        if rest.unicode_len() == 0 {
            return Err(InvalidLambdaARN::MissingVersionSuffix);
        }
        let arn = LambdaARN {
            partition: pieces[1].clone(),
            region: pieces[3].clone(),
            account_id: pieces[4].clone(),
            name: pieces[6].clone(),
            version: rest.to_owned(),
        };
        Ok(arn)
    }
}

} // verus!
