//! Capability negotiation over layer and extension names.
//!
//! Names are byte strings, exactly as the driver reports them. A required set
//! is supported when every required name occurs in the supported list; on
//! failure the complete list of missing names is reported, in the order the
//! requirements were given.

use vstd::prelude::*;

verus! {

/// A capability name occurs somewhere in the supported list.
pub open spec fn name_supported(supported: Seq<Seq<u8>>, name: Seq<u8>) -> bool {
    exists|i: int| 0 <= i < supported.len() && supported[i] == name
}

/// The required names that are absent from the supported list, in the order
/// they were required.
pub open spec fn missing_names(required: Seq<Seq<u8>>, supported: Seq<Seq<u8>>) -> Seq<Seq<u8>>
    decreases required.len(),
{
    if required.len() == 0 {
        Seq::empty()
    } else {
        let rest = missing_names(required.drop_last(), supported);
        if name_supported(supported, required.last()) {
            rest
        } else {
            rest.push(required.last())
        }
    }
}

/// Every required name is supported.
pub open spec fn all_supported(required: Seq<Seq<u8>>, supported: Seq<Seq<u8>>) -> bool {
    forall|i: int| 0 <= i < required.len() ==> name_supported(supported, #[trigger] required[i])
}

/// Negotiation succeeds exactly when the required set is a subset of the
/// supported set: the missing-name list is empty iff every required name is
/// supported.
pub proof fn lemma_missing_names_empty_iff_supported(
    required: Seq<Seq<u8>>,
    supported: Seq<Seq<u8>>,
)
    ensures
        missing_names(required, supported).len() == 0 <==> all_supported(required, supported),
    decreases required.len(),
{
    if required.len() == 0 {
    } else {
        lemma_missing_names_empty_iff_supported(required.drop_last(), supported);
        assert(forall|i: int|
            0 <= i < required.len() - 1 ==> required.drop_last()[i] == #[trigger] required[i]);
        if missing_names(required, supported).len() == 0 {
            assert(all_supported(required.drop_last(), supported));
            assert(name_supported(supported, required.last()));
            assert(forall|i: int|
                0 <= i < required.len() ==> name_supported(
                    supported,
                    #[trigger] required[i],
                )) by {
                assert(forall|i: int|
                    0 <= i < required.len() - 1 ==> #[trigger] required[i]
                        == required.drop_last()[i]);
            }
        } else {
        }
    }
}

/// Two byte strings hold the same bytes.
fn bytes_eq(a: &Vec<u8>, b: &Vec<u8>) -> (r: bool)
    ensures
        r == (a@ == b@),
{
    if a.len() != b.len() {
        assert(a@ != b@) by {
            assert(a@.len() != b@.len());
        }
        return false;
    }
    let n = a.len();
    let mut i: usize = 0;
    while i < n
        invariant
            n == a@.len() == b@.len(),
            0 <= i <= n,
            forall|k: int| 0 <= k < i ==> a@[k] == b@[k],
        decreases n - i,
    {
        if a[i] != b[i] {
            assert(a@ != b@);
            return false;
        }
        i += 1;
    }
    assert(a@ =~= b@);
    true
}

/// The name occurs in the supported list.
fn contains_name(supported: &Vec<Vec<u8>>, name: &Vec<u8>) -> (r: bool)
    ensures
        r == name_supported(supported.deep_view(), name@),
{
    let n = supported.len();
    let mut i: usize = 0;
    while i < n
        invariant
            n == supported@.len(),
            0 <= i <= n,
            forall|k: int| 0 <= k < i ==> supported.deep_view()[k] != name@,
        decreases n - i,
    {
        if bytes_eq(&supported[i], name) {
            assert(supported.deep_view()[i as int] == name@);
            return true;
        }
        assert(supported.deep_view()[i as int] == supported@[i as int]@);
        i += 1;
    }
    false
}

/// Checks that every required layer or extension name is supported.
///
/// Succeeds iff the required set is a subset of the supported set; on failure
/// the returned list holds exactly the required names that are unsupported,
/// every one of them, in requirement order.
pub fn check_support(required: &Vec<Vec<u8>>, supported: &Vec<Vec<u8>>) -> (r: Result<
    (),
    Vec<Vec<u8>>,
>)
    ensures
        r is Ok <==> all_supported(required.deep_view(), supported.deep_view()),
        r matches Err(m) ==> m.deep_view() == missing_names(
            required.deep_view(),
            supported.deep_view(),
        ) && m@.len() > 0,
{
    let n = required.len();
    let mut missing: Vec<Vec<u8>> = Vec::new();
    let mut i: usize = 0;
    while i < n
        invariant
            n == required@.len(),
            0 <= i <= n,
            missing.deep_view() =~= missing_names(
                required.deep_view().take(i as int),
                supported.deep_view(),
            ),
        decreases n - i,
    {
        let ghost prefix = required.deep_view().take(i as int);
        assert(required.deep_view().take(i + 1).drop_last() =~= prefix);
        assert(required.deep_view().take(i + 1).last() == required.deep_view()[i as int]);
        if !contains_name(supported, &required[i]) {
            let entry = required[i].clone();
            assert(entry@ == required@[i as int]@);
            missing.push(entry);
        }
        assert(required.deep_view()[i as int] == required@[i as int]@);
        i += 1;
    }
    assert(required.deep_view().take(n as int) =~= required.deep_view());
    if missing.len() == 0 {
        proof {
            lemma_missing_names_empty_iff_supported(required.deep_view(), supported.deep_view());
            assert(missing.deep_view().len() == 0);
        }
        Ok(())
    } else {
        proof {
            lemma_missing_names_empty_iff_supported(required.deep_view(), supported.deep_view());
        }
        Err(missing)
    }
}

} // verus!
