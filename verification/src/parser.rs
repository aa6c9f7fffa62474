//! The parser: splits a raw string into the colon-delimited prefix
//! and the slash-delimited suffix, validates every segment with the
//! same rule the builder uses, and reassembles the identifier.

use vstd::prelude::*;

use crate::errors::ArnError;
use crate::model::{arn_text, Account, Arn, ArnView, Category, Domain, Part, Parts, Root};
use crate::text::{
    join, lemma_join_lacks, lemma_split_len, lemma_split_of_join, split_char, split_on, str_eq,
    valid_seq,
};

verus! {

/// The name of the first mandatory component absent from a string
/// with `n` colon-segments (scheme included), for `1 <= n <= 4`.
pub open spec fn missing_name(n: int) -> Seq<char> {
    if n <= 1 {
        "domain"@
    } else if n == 2 {
        "category"@
    } else if n == 3 {
        "account"@
    } else {
        "root"@
    }
}

/// Of a well-shaped split (five segments, scheme first), the name of
/// the first segment that fails validation, in the order the parser
/// checks: domain, category, account, then root and the parts of the
/// tail. `None` when everything validates.
pub open spec fn first_invalid_name(cs: Seq<Seq<char>>) -> Option<Seq<char>>
    recommends
        cs.len() == 5,
{
    if !valid_seq(cs[1]) {
        Some("domain"@)
    } else if !valid_seq(cs[2]) {
        Some("category"@)
    } else if !valid_seq(cs[3]) {
        Some("account"@)
    } else {
        let ps = split_on(cs[4], '/');
        if !valid_seq(ps[0]) {
            Some("root"@)
        } else if exists|i: int| 1 <= i < ps.len() && !valid_seq(#[trigger] ps[i]) {
            Some("part"@)
        } else {
            None
        }
    }
}

/// The identifier a string denotes, when it denotes one: exactly five
/// colon-segments, the literal scheme first, and every component
/// valid. The tail's first slash-segment is the root; the rest are
/// the parts.
pub open spec fn spec_parse_ok(s: Seq<char>) -> Option<ArnView> {
    let cs = split_on(s, ':');
    if cs.len() == 5 && cs[0] == "arn"@ && first_invalid_name(cs) is None {
        let ps = split_on(cs[4], '/');
        Some(
            ArnView {
                domain: cs[1],
                category: cs[2],
                account: cs[3],
                root: ps[0],
                parts: ps.drop_first(),
            },
        )
    } else {
        None
    }
}

/// Parses canonical identifier text.
pub struct ArnParser {
    input: String,
}

impl View for ArnParser {
    type V = Seq<char>;

    closed spec fn view(&self) -> Seq<char> {
        self.input@
    }
}

impl ArnParser {
    /// Wraps the raw text to parse.
    pub fn new(input: String) -> (r: ArnParser)
        ensures
            r@ == input@,
    {
        ArnParser { input }
    }

    /// Parses the text. Succeeds exactly on the canonical text of a
    /// well-formed identifier and returns that identifier; otherwise
    /// the error names what was wrong: a missing or mismatched scheme
    /// or too many segments, the first absent mandatory segment, or
    /// the first component that failed validation.
    pub fn parse(&self) -> (r: Result<Arn, ArnError>)
        ensures
            (match spec_parse_ok(self@) {
                Some(v) => r matches Ok(a) && a@ == v && v.wf(),
                None => r is Err,
            }),
            (r matches Err(e) ==> {
                let cs = split_on(self@, ':');
                match e {
                    ArnError::InvalidFormat => cs[0] != "arn"@ || cs.len() > 5,
                    ArnError::MissingPart(n) => cs[0] == "arn"@ && cs.len() < 5 && n@
                        == missing_name(cs.len() as int),
                    ArnError::InvalidPart(n) => cs[0] == "arn"@ && cs.len() == 5
                        && first_invalid_name(cs) == Some(n@),
                    ArnError::InvalidPrefix(_) => false,
                }
            }),
    {
        let ghost cs = split_on(self@, ':');
        proof {
            lemma_split_len(self@, ':');
        }
        let segs = split_char(self.input.as_str(), ':');
        assert(segs@.len() == cs.len());
        if !str_eq(segs[0].as_str(), "arn") {
            return Err(ArnError::InvalidFormat);
        }
        if segs.len() > 5 {
            return Err(ArnError::InvalidFormat);
        }
        if segs.len() < 5 {
            let name = if segs.len() == 1 {
                "domain"
            } else if segs.len() == 2 {
                "category"
            } else if segs.len() == 3 {
                "account"
            } else {
                "root"
            };
            return Err(ArnError::MissingPart(String::from_str(name)));
        }
        let domain = match Domain::new(segs[1].clone()) {
            Ok(d) => d,
            Err(e) => {
                return Err(e);
            },
        };
        let category = match Category::new(segs[2].clone()) {
            Ok(c) => c,
            Err(e) => {
                return Err(e);
            },
        };
        let account = match Account::new(segs[3].clone()) {
            Ok(a) => a,
            Err(e) => {
                return Err(e);
            },
        };
        let ghost ps = split_on(cs[4], '/');
        proof {
            assert(cs[1] == segs@[1]@);
            assert(cs[2] == segs@[2]@);
            assert(cs[3] == segs@[3]@);
            assert(cs[4] == segs@[4]@);
            lemma_split_len(cs[4], '/');
        }
        let tail_segs = split_char(segs[4].as_str(), '/');
        assert(tail_segs@.len() == ps.len());
        assert(ps[0] == tail_segs@[0]@);
        let root = match Root::new(tail_segs[0].clone()) {
            Ok(t) => t,
            Err(e) => {
                return Err(e);
            },
        };
        let mut items: Vec<Part> = Vec::new();
        let n = tail_segs.len();
        let mut i: usize = 1;
        proof {
            assert(items.deep_view() =~~= ps.subrange(1, 1));
        }
        while i < n
            invariant
                1 <= i <= n,
                n == ps.len(),
                cs == split_on(self@, ':'),
                cs.len() == 5,
                cs[0] == "arn"@,
                valid_seq(cs[1]),
                valid_seq(cs[2]),
                valid_seq(cs[3]),
                ps == split_on(cs[4], '/'),
                valid_seq(ps[0]),
                ps == tail_segs.deep_view(),
                items.deep_view() == ps.subrange(1, i as int),
                forall|j: int| 1 <= j < i ==> valid_seq(#[trigger] ps[j]),
            decreases n - i,
        {
            let ghost pre = items.deep_view();
            match Part::new(tail_segs[i].clone()) {
                Ok(p) => {
                    items.push(p);
                    proof {
                        assert(items.deep_view() =~~= pre.push(ps[i as int]));
                        assert(items.deep_view() =~~= ps.subrange(1, i as int + 1));
                    }
                },
                Err(e) => {
                    proof {
                        assert(ps[i as int] == tail_segs@[i as int]@);
                        assert(first_invalid_name(cs) == Some("part"@));
                    }
                    return Err(e);
                },
            }
            i = i + 1;
        }
        let parts = Parts::new(items);
        let arn = Arn::new(domain, category, account, root, parts);
        proof {
            assert(ps.subrange(1, n as int) =~~= ps.drop_first());
            let v = spec_parse_ok(self@)->0;
            assert(arn@ =~= v);
        }
        Ok(arn)
    }
}

/// Round trip: the canonical text of any well-formed identifier
/// parses back to exactly that identifier.
pub proof fn lemma_parse_format_round_trip(v: ArnView)
    requires
        v.wf(),
    ensures
        spec_parse_ok(arn_text(v)) == Some(v),
{
    reveal_strlit("arn");
    let tail_pieces = seq![v.root] + v.parts;
    let tail = join(tail_pieces, '/');
    assert(forall|i: int, j: int|
        0 <= i < tail_pieces.len() && 0 <= j < tail_pieces[i].len() ==> #[trigger] tail_pieces[i][j]
            != '/');
    lemma_split_of_join(tail_pieces, '/');
    lemma_join_lacks(tail_pieces, '/', ':');
    let pieces = seq!["arn"@, v.domain, v.category, v.account, tail];
    assert(forall|i: int, j: int|
        0 <= i < pieces.len() && 0 <= j < pieces[i].len() ==> #[trigger] pieces[i][j] != ':');
    lemma_split_of_join(pieces, ':');
    let cs = split_on(arn_text(v), ':');
    assert(cs == pieces);
    assert(cs.len() == 5 && cs[0] == "arn"@);
    let ps = split_on(cs[4], '/');
    assert(ps == tail_pieces);
    assert(first_invalid_name(cs) is None);
    assert(ps.drop_first() =~~= v.parts);
    assert(spec_parse_ok(arn_text(v))->0 =~= v);
}

/// The fallback identifier round-trips: the canonical text of the
/// default value parses back to the default value.
pub proof fn lemma_default_round_trip()
    ensures
        ({
            let v = ArnView {
                domain: "akton"@,
                category: "system"@,
                account: "default"@,
                root: "root"@,
                parts: Seq::<Seq<char>>::empty(),
            };
            spec_parse_ok(arn_text(v)) == Some(v)
        }),
{
    let v = ArnView {
        domain: "akton"@,
        category: "system"@,
        account: "default"@,
        root: "root"@,
        parts: Seq::<Seq<char>>::empty(),
    };
    reveal_strlit("akton");
    reveal_strlit("system");
    reveal_strlit("default");
    reveal_strlit("root");
    assert(v.wf());
    lemma_parse_format_round_trip(v);
}

} // verus!
