//! Crawl orchestration decisions: argument validation against the
//! registry, symbol-set resolution, and turning per-symbol snapshot
//! outcomes into normalized messages. The registry fetches and the
//! per-symbol HTTP requests happen outside and hand their results in.

use vstd::prelude::*;
use crate::adapter::string_views;
use crate::errors::ValidationError;
use crate::messages::{MarketType, Message, MessageKind};

verus! {

/// The exchange this crawler front-ends.
pub const EXCHANGE_NAME: &'static str = "bitget";

/// The requested symbols that the registry does not list, in request
/// order, repeats kept.
pub open spec fn invalid_symbols_of(symbols: Seq<Seq<char>>, valid: Seq<Seq<char>>) -> Seq<
    Seq<char>,
>
    decreases symbols.len(),
{
    if symbols.len() == 0 {
        Seq::empty()
    } else {
        let rest = invalid_symbols_of(symbols.drop_last(), valid);
        if valid.contains(symbols.last()) {
            rest
        } else {
            rest.push(symbols.last())
        }
    }
}

/// No symbol is invalid exactly when every symbol is listed.
pub proof fn lemma_invalid_symbols_empty(symbols: Seq<Seq<char>>, valid: Seq<Seq<char>>)
    ensures
        invalid_symbols_of(symbols, valid).len() == 0 <==> (forall|i: int|
            0 <= i < symbols.len() ==> valid.contains(symbols[i])),
    decreases symbols.len(),
{
    if symbols.len() == 0 {
    } else {
        lemma_invalid_symbols_empty(symbols.drop_last(), valid);
        assert forall|i: int|
            0 <= i < symbols.len() - 1 implies symbols.drop_last()[i] == symbols[i] by {}
    }
}

/// Whether a market type is among the supported ones.
fn contains_market_type(v: &Vec<MarketType>, mt: MarketType) -> (r: bool)
    ensures
        r == v@.contains(mt),
{
    let n = v.len();
    for i in 0..n
        invariant
            n == v@.len(),
            forall|j: int| 0 <= j < i ==> v@[j] != mt,
    {
        if v[i] == mt {
            return true;
        }
    }
    false
}

/// Whether a symbol is in the list.
fn contains_string(v: &Vec<String>, s: &String) -> (r: bool)
    ensures
        r == string_views(v@).contains(s@),
{
    let n = v.len();
    for i in 0..n
        invariant
            n == v@.len(),
            forall|j: int| 0 <= j < i ==> string_views(v@)[j] != s@,
    {
        proof {
            assert(string_views(v@)[i as int] == v@[i as int]@);
        }
        if v[i].eq(s) {
            return true;
        }
    }
    proof {
        assert(!string_views(v@).contains(s@));
    }
    false
}

/// A copy of a symbol list.
fn clone_strings(v: &Vec<String>) -> (r: Vec<String>)
    ensures
        string_views(r@) == string_views(v@),
        r@.len() == v@.len(),
{
    let mut r: Vec<String> = Vec::new();
    let n = v.len();
    for i in 0..n
        invariant
            n == v@.len(),
            r@.len() == i,
            forall|j: int| 0 <= j < i ==> r@[j]@ == v@[j]@,
    {
        r.push(v[i].clone());
    }
    proof {
        assert(string_views(r@) =~= string_views(v@));
    }
    r
}

/// Validates a crawl request against the registry's data before any
/// network call: the market type must be supported and every explicitly
/// requested symbol must be listed; a violation reports the valid
/// alternatives in full.
pub fn check_args(
    market_type: MarketType,
    symbols: &Vec<String>,
    supported: &Vec<MarketType>,
    valid_symbols: &Vec<String>,
) -> (r: Result<(), ValidationError>)
    ensures
        match r {
            Ok(_) => {
                &&& supported@.contains(market_type)
                &&& forall|i: int|
                    0 <= i < symbols@.len() ==> string_views(valid_symbols@).contains(
                        string_views(symbols@)[i],
                    )
            },
            Err(e) => match e {
                ValidationError::UnsupportedMarketType { market_type: m, supported: sup } => {
                    &&& !supported@.contains(market_type)
                    &&& m == market_type
                    &&& sup@ == supported@
                },
                ValidationError::InvalidSymbols { invalid, valid } => {
                    &&& supported@.contains(market_type)
                    &&& string_views(invalid@) == invalid_symbols_of(
                        string_views(symbols@),
                        string_views(valid_symbols@),
                    )
                    &&& string_views(invalid@).len() > 0
                    &&& string_views(valid@) == string_views(valid_symbols@)
                },
            },
        },
{
    if !contains_market_type(supported, market_type) {
        let mut sup: Vec<MarketType> = Vec::new();
        let n = supported.len();
        for i in 0..n
            invariant
                n == supported@.len(),
                sup@ =~= supported@.subrange(0, i as int),
        {
            sup.push(supported[i]);
            proof {
                assert(sup@ =~= supported@.subrange(0, i as int + 1));
            }
        }
        proof {
            assert(supported@.subrange(0, n as int) =~= supported@);
        }
        return Err(ValidationError::UnsupportedMarketType { market_type, supported: sup });
    }
    let mut invalid: Vec<String> = Vec::new();
    let n = symbols.len();
    let ghost all = string_views(symbols@);
    let ghost valid_v = string_views(valid_symbols@);
    for i in 0..n
        invariant
            n == symbols@.len(),
            all == string_views(symbols@),
            valid_v == string_views(valid_symbols@),
            string_views(invalid@) =~= invalid_symbols_of(all.subrange(0, i as int), valid_v),
    {
        let ghost prefix = all.subrange(0, i as int);
        let ghost longer = all.subrange(0, i as int + 1);
        proof {
            assert(longer.drop_last() =~= prefix);
            assert(longer.last() == symbols@[i as int]@);
        }
        if !contains_string(valid_symbols, &symbols[i]) {
            invalid.push(symbols[i].clone());
        }
        proof {
            assert(string_views(invalid@) =~= invalid_symbols_of(longer, valid_v));
        }
    }
    proof {
        assert(all.subrange(0, n as int) =~= all);
    }
    if invalid.len() > 0 {
        let valid = clone_strings(valid_symbols);
        return Err(ValidationError::InvalidSymbols { invalid, valid });
    }
    proof {
        lemma_invalid_symbols_empty(all, valid_v);
    }
    Ok(())
}

/// The effective symbol set of a crawl: an explicit non-empty list is
/// taken as given; no list, or an empty one, means every symbol the
/// registry currently supports.
pub fn resolve_symbols(symbols: Option<&Vec<String>>, all_from_registry: &Vec<String>) -> (r: Vec<
    String,
>)
    ensures
        match symbols {
            Some(list) => {
                if list@.len() == 0 {
                    string_views(r@) == string_views(all_from_registry@)
                } else {
                    string_views(r@) == string_views(list@)
                }
            },
            None => string_views(r@) == string_views(all_from_registry@),
        },
{
    match symbols {
        Some(list) => {
            if list.len() == 0 {
                clone_strings(all_from_registry)
            } else {
                clone_strings(list)
            }
        },
        None => clone_strings(all_from_registry),
    }
}

/// The (symbol, payload) pairs that survive a snapshot pass: one per
/// symbol whose fetch succeeded, in symbol order; a failed symbol is
/// skipped and costs nothing else.
pub open spec fn kept_snapshots(
    symbols: Seq<Seq<char>>,
    outcomes: Seq<Option<Seq<char>>>,
) -> Seq<(Seq<char>, Seq<char>)>
    decreases symbols.len(),
{
    if symbols.len() == 0 || outcomes.len() == 0 {
        Seq::empty()
    } else {
        let rest = kept_snapshots(symbols.drop_last(), outcomes.drop_last());
        match outcomes.last() {
            Some(p) => rest.push((symbols.last(), p)),
            None => rest,
        }
    }
}

/// How many fetches succeeded.
pub open spec fn count_some(outcomes: Seq<Option<Seq<char>>>) -> int
    decreases outcomes.len(),
{
    if outcomes.len() == 0 {
        0
    } else {
        count_some(outcomes.drop_last()) + (if outcomes.last() is Some {
            1int
        } else {
            0int
        })
    }
}

/// The law behind the snapshot crawl: one record per successful fetch —
/// a single symbol's failure never costs any other symbol its record —
/// and when every fetch succeeds there is exactly one record per symbol,
/// carrying that symbol.
pub proof fn lemma_snapshot_counts(symbols: Seq<Seq<char>>, outcomes: Seq<Option<Seq<char>>>)
    requires
        symbols.len() == outcomes.len(),
    ensures
        kept_snapshots(symbols, outcomes).len() == count_some(outcomes),
        (forall|i: int| 0 <= i < outcomes.len() ==> outcomes[i] is Some) ==> kept_snapshots(
            symbols,
            outcomes,
        ).len() == symbols.len(),
        (forall|i: int| 0 <= i < outcomes.len() ==> outcomes[i] is Some) ==> forall|i: int|
            0 <= i < symbols.len() ==> kept_snapshots(symbols, outcomes)[i].0 == symbols[i],
    decreases symbols.len(),
{
    if symbols.len() == 0 {
    } else {
        lemma_snapshot_counts(symbols.drop_last(), outcomes.drop_last());
        if forall|i: int| 0 <= i < outcomes.len() ==> outcomes[i] is Some {
            assert(count_some(outcomes.drop_last()) == outcomes.len() - 1) by {
                assert forall|i: int|
                    0 <= i < outcomes.len() - 1 implies outcomes.drop_last()[i] is Some by {
                    assert(outcomes.drop_last()[i] == outcomes[i]);
                }
            }
            assert forall|i: int|
                0 <= i < symbols.len() implies kept_snapshots(symbols, outcomes)[i].0
                == symbols[i] by {
                if i < symbols.len() - 1 {
                    assert(kept_snapshots(symbols, outcomes)[i] == kept_snapshots(
                        symbols.drop_last(),
                        outcomes.drop_last(),
                    )[i]);
                    assert(symbols.drop_last()[i] == symbols[i]);
                }
            }
        }
    }
}

/// Turns per-symbol snapshot outcomes into normalized messages: one
/// `Message` per successful fetch, none for a failure, all stamped with
/// the same exchange, market type, kind and reception time.
pub fn collect_snapshots(
    exchange: &str,
    market_type: MarketType,
    kind: MessageKind,
    symbols: &Vec<String>,
    outcomes: &Vec<Option<String>>,
    received_at: u64,
) -> (msgs: Vec<Message>)
    requires
        symbols@.len() == outcomes@.len(),
    ensures
        ({
            let kept = kept_snapshots(string_views(symbols@), outcome_views(outcomes@));
            &&& msgs@.len() == kept.len()
            &&& forall|i: int|
                0 <= i < msgs@.len() ==> {
                    &&& (#[trigger] msgs@[i]).exchange@ == exchange@
                    &&& msgs@[i].market_type == market_type
                    &&& msgs@[i].kind == kind
                    &&& msgs@[i].received_at == received_at
                    &&& msgs@[i].symbol@ == kept[i].0
                    &&& msgs@[i].payload@ == kept[i].1
                }
        }),
{
    let mut msgs: Vec<Message> = Vec::new();
    let n = symbols.len();
    let ghost sv = string_views(symbols@);
    let ghost ov = outcome_views(outcomes@);
    for i in 0..n
        invariant
            n == symbols@.len() == outcomes@.len(),
            sv == string_views(symbols@),
            ov == outcome_views(outcomes@),
            ({
                let kept = kept_snapshots(sv.subrange(0, i as int), ov.subrange(0, i as int));
                &&& msgs@.len() == kept.len()
                &&& forall|j: int|
                    0 <= j < msgs@.len() ==> {
                        &&& (#[trigger] msgs@[j]).exchange@ == exchange@
                        &&& msgs@[j].market_type == market_type
                        &&& msgs@[j].kind == kind
                        &&& msgs@[j].received_at == received_at
                        &&& msgs@[j].symbol@ == kept[j].0
                        &&& msgs@[j].payload@ == kept[j].1
                    }
            }),
    {
        let ghost sp = sv.subrange(0, i as int);
        let ghost op = ov.subrange(0, i as int);
        let ghost sl = sv.subrange(0, i as int + 1);
        let ghost ol = ov.subrange(0, i as int + 1);
        proof {
            assert(sl.drop_last() =~= sp);
            assert(ol.drop_last() =~= op);
            assert(sl.last() == symbols@[i as int]@);
            assert(ol.last() == match outcomes@[i as int] {
                Some(p) => Some(p@),
                None => None::<Seq<char>>,
            });
        }
        match &outcomes[i] {
            Some(payload) => {
                msgs.push(
                    Message::new(
                        exchange.to_owned(),
                        market_type,
                        symbols[i].clone(),
                        kind,
                        payload.clone(),
                        received_at,
                    ),
                );
            },
            None => {},
        }
        proof {
            let kept_longer = kept_snapshots(sl, ol);
            assert(kept_longer == match ol.last() {
                Some(p) => kept_snapshots(sp, op).push((sl.last(), p)),
                None => kept_snapshots(sp, op),
            });
        }
    }
    proof {
        assert(sv.subrange(0, n as int) =~= sv);
        assert(ov.subrange(0, n as int) =~= ov);
    }
    msgs
}

/// The payload views of per-symbol fetch outcomes.
pub open spec fn outcome_views(os: Seq<Option<String>>) -> Seq<Option<Seq<char>>> {
    os.map_values(
        |o: Option<String>|
            match o {
                Some(p) => Some(p@),
                None => None,
            },
    )
}

} // verus!
