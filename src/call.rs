use vstd::prelude::*;

use crate::text::same_text;
use crate::value::{converts_to, duplicate_all, Dyn, DynamicValue, NativeType};

verus! {

/// One declared parameter of an exposed operation.
pub struct Parameter {
    pub name: String,
    /// The value bound when the caller supplies none; `None` makes the
    /// parameter required.
    pub default: Option<DynamicValue>,
    /// The native type the bound value must convert to.
    pub native: NativeType,
}

/// The declared shape of an exposed operation: its named parameters in order,
/// then optionally a variadic positional tail and a keyword-mapping tail.
pub struct CallSignature {
    pub name: String,
    pub params: Vec<Parameter>,
    pub var_positional: bool,
    pub var_keyword: bool,
}

/// The arguments of a call after binding: one value per declared parameter,
/// the variadic tail, and the keyword entries left for the keyword tail.
pub struct BoundArguments {
    pub values: Vec<DynamicValue>,
    pub rest: Vec<DynamicValue>,
    pub extra: Vec<(String, DynamicValue)>,
}

pub enum CallError {
    MissingRequiredArgument(String),
    TooManyArguments,
    UnexpectedKeywordArgument(String),
    TypeMismatch(String),
}

/// How a call ends, with the index of the offending parameter or keyword entry.
pub enum Outcome {
    TooMany,
    Missing(int),
    Unexpected(int),
    Mismatch(int),
    Bound,
}

pub open spec fn param_name(sig: CallSignature, i: int) -> Seq<char> {
    sig.params@[i].name@
}

pub open spec fn too_many(sig: CallSignature, pos: Seq<DynamicValue>) -> bool {
    pos.len() > sig.params@.len() && !sig.var_positional
}

/// The index of the first keyword entry, from `j` on, whose key is `name`.
pub open spec fn find_key(kw: Seq<(String, DynamicValue)>, name: Seq<char>, j: nat) -> Option<nat>
    decreases kw.len() - j,
{
    if j >= kw.len() {
        None
    } else if kw[j as int].0@ == name {
        Some(j)
    } else {
        find_key(kw, name, j + 1)
    }
}

/// The value bound to parameter `i`: by position, else by keyword, else its default.
pub open spec fn bound(
    sig: CallSignature,
    pos: Seq<DynamicValue>,
    kw: Seq<(String, DynamicValue)>,
    i: int,
) -> Option<Dyn> {
    if i < pos.len() {
        Some(pos[i].model())
    } else {
        match find_key(kw, param_name(sig, i), 0) {
            Some(j) => Some(kw[j as int].1.model()),
            None => match sig.params@[i].default {
                Some(d) => Some(d.model()),
                None => None,
            },
        }
    }
}

pub open spec fn first_missing(
    sig: CallSignature,
    pos: Seq<DynamicValue>,
    kw: Seq<(String, DynamicValue)>,
    i: nat,
) -> Option<nat>
    decreases sig.params@.len() - i,
{
    if i >= sig.params@.len() {
        None
    } else if bound(sig, pos, kw, i as int) is None {
        Some(i)
    } else {
        first_missing(sig, pos, kw, i + 1)
    }
}

/// Whether a keyword is taken by a declared parameter that no positional
/// argument filled.
pub open spec fn claimed(sig: CallSignature, pos: Seq<DynamicValue>, key: Seq<char>) -> bool {
    exists|i: int| pos.len() <= i < sig.params@.len() && param_name(sig, i) == key
}

pub open spec fn first_unexpected(
    sig: CallSignature,
    pos: Seq<DynamicValue>,
    kw: Seq<(String, DynamicValue)>,
    j: nat,
) -> Option<nat>
    decreases kw.len() - j,
{
    if j >= kw.len() {
        None
    } else if !claimed(sig, pos, kw[j as int].0@) {
        Some(j)
    } else {
        first_unexpected(sig, pos, kw, j + 1)
    }
}

pub open spec fn first_mismatch(
    sig: CallSignature,
    pos: Seq<DynamicValue>,
    kw: Seq<(String, DynamicValue)>,
    i: nat,
) -> Option<nat>
    decreases sig.params@.len() - i,
{
    if i >= sig.params@.len() {
        None
    } else if !converts_to(bound(sig, pos, kw, i as int)->0, sig.params@[i as int].native) {
        Some(i)
    } else {
        first_mismatch(sig, pos, kw, i + 1)
    }
}

/// The keyword entries among the first `j` that no declared parameter takes.
pub open spec fn leftover(
    sig: CallSignature,
    pos: Seq<DynamicValue>,
    kw: Seq<(String, DynamicValue)>,
    j: nat,
) -> Seq<(Seq<char>, Dyn)>
    decreases j,
{
    if j == 0 || j > kw.len() {
        Seq::empty()
    } else {
        let before = leftover(sig, pos, kw, (j - 1) as nat);
        let e = kw[j - 1];
        if claimed(sig, pos, e.0@) {
            before
        } else {
            before.push((e.0@, e.1.model()))
        }
    }
}

/// The positional arguments beyond the declared parameters.
pub open spec fn tail_of(sig: CallSignature, pos: Seq<DynamicValue>) -> Seq<Dyn> {
    if pos.len() <= sig.params@.len() {
        Seq::empty()
    } else {
        Seq::new(
            (pos.len() - sig.params@.len()) as nat,
            |k: int| pos[sig.params@.len() + k].model(),
        )
    }
}

/// How binding the arguments ends: too many positional arguments, then a
/// missing required parameter, then an unexpected keyword, then a value of
/// the wrong type, each checked in that order.
pub open spec fn outcome(
    sig: CallSignature,
    pos: Seq<DynamicValue>,
    kw: Seq<(String, DynamicValue)>,
) -> Outcome {
    if too_many(sig, pos) {
        Outcome::TooMany
    } else if first_missing(sig, pos, kw, 0) is Some {
        Outcome::Missing(first_missing(sig, pos, kw, 0)->0 as int)
    } else if !sig.var_keyword && first_unexpected(sig, pos, kw, 0) is Some {
        Outcome::Unexpected(first_unexpected(sig, pos, kw, 0)->0 as int)
    } else if first_mismatch(sig, pos, kw, 0) is Some {
        Outcome::Mismatch(first_mismatch(sig, pos, kw, 0)->0 as int)
    } else {
        Outcome::Bound
    }
}

/// The number of parameters among the first `m` that have no default.
pub open spec fn required_count(params: Seq<Parameter>, m: nat) -> nat
    decreases m,
{
    if m == 0 || m > params.len() {
        0
    } else {
        required_count(params, (m - 1) as nat) + if params[m - 1].default is None {
            1nat
        } else {
            0nat
        }
    }
}

/// The position of the first keyword entry whose key is `name`.
fn find_keyword(kw: &Vec<(String, DynamicValue)>, name: &String) -> (r: Option<usize>)
    ensures
        match r {
            Some(j) => find_key(kw@, name@, 0) == Some(j as nat) && j < kw.len(),
            None => find_key(kw@, name@, 0) is None,
        },
{
    let mut j: usize = 0;
    while j < kw.len()
        invariant
            j <= kw.len(),
            find_key(kw@, name@, 0) == find_key(kw@, name@, j as nat),
        decreases kw.len() - j,
    {
        if same_text(kw[j].0.as_str(), name.as_str()) {
            return Some(j);
        }
        j = j + 1;
    }
    None
}

/// Whether `key` names a declared parameter from position `from` on.
fn is_claimed(sig: &CallSignature, from: usize, key: &String) -> (r: bool)
    ensures
        r == (exists|i: int| from <= i < sig.params@.len() && param_name(*sig, i) == key@),
{
    let mut i: usize = from;
    while i < sig.params.len()
        invariant
            from <= i,
            forall|m: int| from <= m < i && m < sig.params@.len() ==> param_name(*sig, m) != key@,
        decreases sig.params.len() - i,
    {
        if same_text(sig.params[i].name.as_str(), key.as_str()) {
            assert(param_name(*sig, i as int) == key@);
            return true;
        }
        i = i + 1;
    }
    false
}

/// Binds the arguments of a call to the parameters of a signature.
///
/// Positional arguments fill the declared parameters left to right; any
/// beyond them go to the variadic tail. Each parameter left unfilled takes
/// the keyword entry of its name, else its default. Keyword entries that no
/// such parameter takes go to the keyword tail. Every bound value must then
/// convert to its parameter's native type. Defaults are copied afresh for
/// each call.
pub fn bind_arguments(
    sig: &CallSignature,
    positional: &Vec<DynamicValue>,
    keyword: &Vec<(String, DynamicValue)>,
) -> (r: Result<BoundArguments, CallError>)
    ensures
        match outcome(*sig, positional@, keyword@) {
            Outcome::TooMany => r matches Err(CallError::TooManyArguments),
            Outcome::Missing(i) => r matches Err(CallError::MissingRequiredArgument(n)) && n@
                == param_name(*sig, i),
            Outcome::Unexpected(j) => r matches Err(CallError::UnexpectedKeywordArgument(n))
                && n@ == keyword@[j].0@,
            Outcome::Mismatch(i) => r matches Err(CallError::TypeMismatch(n)) && n@ == param_name(
                *sig,
                i,
            ),
            Outcome::Bound => r matches Ok(b) && {
                &&& b.values.len() == sig.params.len()
                &&& forall|i: int|
                    0 <= i < sig.params.len() ==> Some((#[trigger] b.values[i]).model()) == bound(
                        *sig,
                        positional@,
                        keyword@,
                        i,
                    )
                &&& Seq::new(b.rest.len() as nat, |k: int| b.rest[k].model()) == tail_of(
                    *sig,
                    positional@,
                )
                &&& Seq::new(b.extra.len() as nat, |k: int| (b.extra[k].0@, b.extra[k].1.model()))
                    == leftover(*sig, positional@, keyword@, keyword.len() as nat)
            },
        },
{
    let n = sig.params.len();
    let k = positional.len();
    if k > n && !sig.var_positional {
        return Err(CallError::TooManyArguments);
    }
    let ghost pos = positional@;
    let ghost kw = keyword@;
    let mut values: Vec<DynamicValue> = Vec::new();
    let mut i: usize = 0;
    while i < n
        invariant
            n == sig.params.len(),
            k == positional.len(),
            i <= n,
            !too_many(*sig, pos),
            pos == positional@,
            kw == keyword@,
            values.len() == i,
            forall|m: int| 0 <= m < i ==> Some((#[trigger] values[m]).model()) == bound(*sig, pos, kw, m),
            first_missing(*sig, pos, kw, 0) == first_missing(*sig, pos, kw, i as nat),
        decreases n - i,
    {
        let p = &sig.params[i];
        if i < k {
            values.push(positional[i].duplicate());
        } else {
            match find_keyword(keyword, &p.name) {
                Some(j) => values.push(keyword[j].1.duplicate()),
                None => match &p.default {
                    Some(d) => values.push(d.duplicate()),
                    None => {
                        return Err(CallError::MissingRequiredArgument(p.name.clone()));
                    },
                },
            }
        }
        i = i + 1;
    }
    let mut extra: Vec<(String, DynamicValue)> = Vec::new();
    let mut j: usize = 0;
    while j < keyword.len()
        invariant
            n == sig.params.len(),
            k == positional.len(),
            j <= keyword.len(),
            pos == positional@,
            kw == keyword@,
            !too_many(*sig, pos),
            first_missing(*sig, pos, kw, 0) is None,
            !sig.var_keyword ==> first_unexpected(*sig, pos, kw, 0) == first_unexpected(
                *sig,
                pos,
                kw,
                j as nat,
            ),
            Seq::new(extra.len() as nat, |q: int| (extra[q].0@, extra[q].1.model())) == leftover(
                *sig,
                pos,
                kw,
                j as nat,
            ),
        decreases keyword.len() - j,
    {
        let taken = is_claimed(sig, k, &keyword[j].0);
        if !taken {
            if !sig.var_keyword {
                return Err(CallError::UnexpectedKeywordArgument(keyword[j].0.clone()));
            }
            let ghost before = Seq::new(extra.len() as nat, |q: int| (extra[q].0@, extra[q].1.model()));
            extra.push((keyword[j].0.clone(), keyword[j].1.duplicate()));
            assert(Seq::new(extra.len() as nat, |q: int| (extra[q].0@, extra[q].1.model())) =~= before.push(
                (kw[j as int].0@, kw[j as int].1.model()),
            ));
        }
        j = j + 1;
    }
    let mut i: usize = 0;
    while i < n
        invariant
            n == sig.params.len(),
            i <= n,
            values.len() == n,
            pos == positional@,
            kw == keyword@,
            forall|m: int| 0 <= m < n ==> Some((#[trigger] values[m]).model()) == bound(*sig, pos, kw, m),
            !too_many(*sig, pos),
            first_missing(*sig, pos, kw, 0) is None,
            !sig.var_keyword ==> first_unexpected(*sig, pos, kw, 0) is None,
            Seq::new(extra.len() as nat, |q: int| (extra[q].0@, extra[q].1.model())) == leftover(
                *sig,
                pos,
                kw,
                kw.len(),
            ),
            first_mismatch(*sig, pos, kw, 0) == first_mismatch(*sig, pos, kw, i as nat),
        decreases n - i,
    {
        assert(Some(values[i as int].model()) == bound(*sig, pos, kw, i as int));
        if !values[i].converts_to(sig.params[i].native) {
            return Err(CallError::TypeMismatch(sig.params[i].name.clone()));
        }
        i = i + 1;
    }
    let mut rest: Vec<DynamicValue> = Vec::new();
    if k > n {
        let mut q: usize = n;
        while q < k
            invariant
                n == sig.params.len(),
                k == positional.len(),
                n <= q <= k,
                rest.len() == q - n,
                forall|m: int|
                    0 <= m < rest.len() ==> (#[trigger] rest[m]).model() == positional[n + m].model(),
            decreases k - q,
        {
            rest.push(positional[q].duplicate());
            q = q + 1;
        }
    }
    assert(Seq::new(rest.len() as nat, |m: int| rest[m].model()) =~= tail_of(*sig, pos));
    Ok(BoundArguments { values, rest, extra })
}

proof fn lemma_required_count_le(params: Seq<Parameter>, m: nat)
    ensures
        required_count(params, m) <= m,
    decreases m,
{
    if m > 0 && m <= params.len() {
        lemma_required_count_le(params, (m - 1) as nat);
    }
}

proof fn lemma_required_count_defaults(params: Seq<Parameter>, k: nat, m: nat)
    requires
        k <= m <= params.len(),
        forall|i: int| k <= i < m ==> (#[trigger] params[i]).default is Some,
    ensures
        required_count(params, m) <= k,
    decreases m,
{
    if m == k {
        lemma_required_count_le(params, k);
    } else {
        lemma_required_count_defaults(params, k, (m - 1) as nat);
    }
}

proof fn lemma_first_missing_none(
    sig: CallSignature,
    pos: Seq<DynamicValue>,
    kw: Seq<(String, DynamicValue)>,
    i: nat,
)
    ensures
        first_missing(sig, pos, kw, i) is None <==> (forall|m: int|
            i <= m < sig.params@.len() ==> (#[trigger] bound(sig, pos, kw, m)) is Some),
    decreases sig.params@.len() - i,
{
    if i < sig.params@.len() {
        lemma_first_missing_none(sig, pos, kw, i + 1);
    }
}

/// A call that supplies fewer positional arguments than the signature has
/// required parameters, and no keyword for any parameter that they leave
/// unfilled, always fails with a missing required argument.
pub proof fn missing_required_argument(
    sig: CallSignature,
    pos: Seq<DynamicValue>,
    kw: Seq<(String, DynamicValue)>,
)
    requires
        pos.len() < required_count(sig.params@, sig.params@.len()),
        forall|i: int|
            pos.len() <= i < sig.params@.len() ==> find_key(kw, #[trigger] param_name(sig, i), 0) is None,
    ensures
        outcome(sig, pos, kw) is Missing,
{
    let n = sig.params@.len();
    lemma_required_count_le(sig.params@, n);
    lemma_first_missing_none(sig, pos, kw, 0);
    if first_missing(sig, pos, kw, 0) is None {
        assert forall|i: int| pos.len() <= i < n implies (#[trigger] sig.params@[i]).default is Some by {
            assert(bound(sig, pos, kw, i) is Some);
            assert(find_key(kw, param_name(sig, i), 0) is None);
        }
        lemma_required_count_defaults(sig.params@, pos.len(), n);
    }
}

/// With a variadic tail, a call with more positional arguments than declared
/// parameters binds the first of them to the parameters, one each in order,
/// and the remaining ones to the tail, in their original order.
pub proof fn variadic_tail_binding(
    sig: CallSignature,
    pos: Seq<DynamicValue>,
    kw: Seq<(String, DynamicValue)>,
)
    requires
        sig.var_positional,
        pos.len() > sig.params@.len(),
    ensures
        !(outcome(sig, pos, kw) is TooMany),
        !(outcome(sig, pos, kw) is Missing),
        forall|i: int|
            0 <= i < sig.params@.len() ==> #[trigger] bound(sig, pos, kw, i) == Some(pos[i].model()),
        tail_of(sig, pos).len() == pos.len() - sig.params@.len(),
        forall|k: int|
            0 <= k < pos.len() - sig.params@.len() ==> #[trigger] tail_of(sig, pos)[k] == pos[sig.params@.len()
                + k].model(),
{
    lemma_first_missing_none(sig, pos, kw, 0);
}

} // verus!
