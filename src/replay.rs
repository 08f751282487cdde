use vstd::prelude::*;

use crate::address::Address;
use crate::app::{
    first_index, has_address, lemma_names_of_remove, names_of, select_down, SessionView,
};

verus! {

/// A change to a session between two power changes.
pub enum SessionEvent {
    /// A device appeared (`App::add_device`).
    Added(Address),
    /// A device disappeared (`App::remove_device`).
    Removed(Address),
    /// The selection moved up (`App::change_selection("up")`).
    Up,
    /// The selection moved down (`App::change_selection("down")`).
    Down,
    /// The names were looked up afresh (`App::device_information`).
    Renamed(Seq<Option<Seq<char>>>),
}

pub open spec fn apply(v: SessionView, e: SessionEvent) -> SessionView {
    match e {
        SessionEvent::Added(a) => v.added(a),
        SessionEvent::Removed(a) => v.removed(a),
        SessionEvent::Up => v.moved_up(),
        SessionEvent::Down => v.moved_down(),
        SessionEvent::Renamed(lookups) => v.renamed(lookups),
    }
}

/// The session after the events of `evs`, in order.
pub open spec fn replay(v: SessionView, evs: Seq<SessionEvent>) -> SessionView
    decreases evs.len(),
{
    if evs.len() == 0 {
        v
    } else {
        apply(replay(v, evs.drop_last()), evs.last())
    }
}

/// How many more times `a` was added than removed in `evs`.
pub open spec fn net_adds(evs: Seq<SessionEvent>, a: Address) -> int
    decreases evs.len(),
{
    if evs.len() == 0 {
        0
    } else {
        net_adds(evs.drop_last(), a) + match evs.last() {
            SessionEvent::Added(b) => if b == a { 1int } else { 0int },
            SessionEvent::Removed(b) => if b == a { -1int } else { 0int },
            _ => 0int,
        }
    }
}

/// Every prefix of `evs` has added each address at most once more than it
/// removed it, and removed it no more often than it added it: no second
/// `Added` before the matching `Removed`, no `Removed` before its `Added`.
pub open spec fn bracketed(evs: Seq<SessionEvent>) -> bool
    decreases evs.len(),
{
    if evs.len() == 0 {
        true
    } else {
        &&& bracketed(evs.drop_last())
        &&& forall|a: Address| 0 <= #[trigger] net_adds(evs, a) <= 1
    }
}

/// `k` moves down from `sel` through `n` names.
pub open spec fn downs(sel: Option<nat>, n: nat, k: nat) -> Option<nat>
    decreases k,
{
    if k == 0 {
        sel
    } else {
        select_down(downs(sel, n, (k - 1) as nat), n)
    }
}

proof fn lemma_added_devices(v: SessionView, a: Address)
    requires
        v.wf(),
    ensures
        v.added(a).wf(),
        forall|x: Address|
            has_address(v.added(a).devices, x) <==> (has_address(v.devices, x) || x == a),
{
    let w = v.added(a);
    if !has_address(v.devices, a) {
        let n = v.devices.len() as int;
        assert(w.devices.drop_last() =~= v.devices);
        assert(w.names() == names_of(v.devices));
        assert(w.devices[n].address == a);
        assert forall|x: Address| has_address(w.devices, x) <==> (has_address(v.devices, x) || x == a) by {
            if has_address(w.devices, x) {
                let i = choose|i: int| 0 <= i < w.devices.len() && #[trigger] w.devices[i].address == x;
                if i < n {
                    assert(v.devices[i].address == x);
                }
            }
            if has_address(v.devices, x) {
                let i = choose|i: int| 0 <= i < v.devices.len() && #[trigger] v.devices[i].address == x;
                assert(w.devices[i].address == x);
            }
        }
        assert forall|i: int, j: int|
            0 <= i < w.devices.len() && 0 <= j < w.devices.len() && i != j implies #[trigger] w.devices[i].address
            != #[trigger] w.devices[j].address by {
            if i == n {
                assert(v.devices[j].address != a);
            } else if j == n {
                assert(v.devices[i].address != a);
            } else {
                assert(v.devices[i].address != v.devices[j].address);
            }
        }
    }
}

proof fn lemma_removed_devices(v: SessionView, a: Address)
    requires
        v.wf(),
    ensures
        v.removed(a).wf(),
        forall|x: Address|
            has_address(v.removed(a).devices, x) <==> (has_address(v.devices, x) && x != a),
{
    let w = v.removed(a);
    if has_address(v.devices, a) {
        let s = v.devices;
        let k = first_index(s, a);
        let i0 = choose|i: int| 0 <= i < s.len() && #[trigger] s[i].address == a;
        assert(0 <= k < s.len() && s[k].address == a) by {
            if !(0 <= k < s.len() && s[k].address == a && forall|j: int|
                0 <= j < k ==> #[trigger] s[j].address != a) {
                assert(0 <= i0 < s.len() && s[i0].address == a && forall|j: int|
                    0 <= j < i0 ==> #[trigger] s[j].address != a) by {
                    assert forall|j: int| 0 <= j < i0 implies #[trigger] s[j].address != a by {
                        assert(s[j].address != s[i0].address);
                    }
                }
            }
        }
        lemma_names_of_remove(s, k);
        let slot = names_of(s.take(k)).len();
        assert(w.devices == s.remove(k));
        assert forall|x: Address| has_address(w.devices, x) <==> (has_address(s, x) && x != a) by {
            if has_address(w.devices, x) {
                let i = choose|i: int| 0 <= i < w.devices.len() && #[trigger] w.devices[i].address == x;
                let oi = if i < k { i } else { i + 1 };
                assert(s[oi].address == x);
                assert(oi != k);
                assert(s[oi].address != s[k].address);
            }
            if has_address(s, x) && x != a {
                let i = choose|i: int| 0 <= i < s.len() && #[trigger] s[i].address == x;
                assert(i != k);
                if i < k {
                    assert(w.devices[i].address == x);
                } else {
                    assert(w.devices[i - 1].address == x);
                }
            }
        }
        assert forall|i: int, j: int|
            0 <= i < w.devices.len() && 0 <= j < w.devices.len() && i != j implies #[trigger] w.devices[i].address
            != #[trigger] w.devices[j].address by {
            let oi = if i < k { i } else { i + 1 };
            let oj = if j < k { j } else { j + 1 };
            assert(s[oi].address != s[oj].address);
        }
    }
}

proof fn lemma_renamed_devices(v: SessionView, lookups: Seq<Option<Seq<char>>>)
    requires
        v.wf(),
    ensures
        v.renamed(lookups).wf(),
        forall|x: Address| has_address(v.renamed(lookups).devices, x) <==> has_address(v.devices, x),
{
    let w = v.renamed(lookups);
    assert forall|x: Address| has_address(w.devices, x) <==> has_address(v.devices, x) by {
        if has_address(w.devices, x) {
            let i = choose|i: int| 0 <= i < w.devices.len() && #[trigger] w.devices[i].address == x;
            assert(v.devices[i].address == x);
        }
        if has_address(v.devices, x) {
            let i = choose|i: int| 0 <= i < v.devices.len() && #[trigger] v.devices[i].address == x;
            assert(w.devices[i].address == x);
        }
    }
    assert forall|i: int, j: int|
        0 <= i < w.devices.len() && 0 <= j < w.devices.len() && i != j implies #[trigger] w.devices[i].address
        != #[trigger] w.devices[j].address by {
        assert(v.devices[i].address != v.devices[j].address);
    }
}

/// Every event keeps a well-formed session well-formed; moves leave the
/// devices alone.
proof fn lemma_apply_wf(v: SessionView, e: SessionEvent)
    requires
        v.wf(),
    ensures
        apply(v, e).wf(),
{
    match e {
        SessionEvent::Added(a) => lemma_added_devices(v, a),
        SessionEvent::Removed(a) => lemma_removed_devices(v, a),
        SessionEvent::Renamed(lookups) => lemma_renamed_devices(v, lookups),
        SessionEvent::Up => {},
        SessionEvent::Down => {
            let n = v.names().len();
            if let Some(i) = v.selected {
                assert(((i + 1) as int) % (n as int) < n);
            }
        },
    }
}

/// Selection stays in range: whatever the events, in particular whatever
/// the up and down moves, the selection of a well-formed session is
/// nothing or a position among the names shown.
pub proof fn lemma_selection_in_range(v: SessionView, evs: Seq<SessionEvent>)
    requires
        v.wf(),
    ensures
        replay(v, evs).wf(),
        replay(v, evs).selected matches Some(i) ==> i < replay(v, evs).names().len(),
    decreases evs.len(),
{
    if evs.len() > 0 {
        lemma_selection_in_range(v, evs.drop_last());
        lemma_apply_wf(replay(v, evs.drop_last()), evs.last());
    }
}

/// Device set from events: starting from no devices, when no address is
/// added twice before it is removed nor removed before it is added, the
/// addresses listed at the end are exactly those added more often than
/// removed, whatever selection moves and name lookups come in between.
pub proof fn lemma_devices_follow_net_adds(v: SessionView, evs: Seq<SessionEvent>)
    requires
        v.wf(),
        v.devices.len() == 0,
        bracketed(evs),
    ensures
        replay(v, evs).addresses() == Set::new(|a: Address| net_adds(evs, a) > 0),
    decreases evs.len(),
{
    lemma_listed_iff_net_one(v, evs);
    assert(replay(v, evs).addresses() =~= Set::new(|a: Address| net_adds(evs, a) > 0));
}

proof fn lemma_listed_iff_net_one(v: SessionView, evs: Seq<SessionEvent>)
    requires
        v.wf(),
        v.devices.len() == 0,
        bracketed(evs),
    ensures
        replay(v, evs).wf(),
        forall|a: Address| #[trigger] has_address(replay(v, evs).devices, a) <==> net_adds(evs, a) == 1,
    decreases evs.len(),
{
    if evs.len() == 0 {
        assert forall|a: Address| #[trigger] has_address(replay(v, evs).devices, a) <==> net_adds(evs, a) == 1 by {
            if has_address(v.devices, a) {
                let i = choose|i: int| 0 <= i < v.devices.len() && #[trigger] v.devices[i].address == a;
            }
        }
    } else {
        let pre = evs.drop_last();
        lemma_listed_iff_net_one(v, pre);
        assert(replay(v, evs) == apply(replay(v, pre), evs.last()));
        if pre.len() > 0 {
            assert(forall|a: Address| 0 <= #[trigger] net_adds(pre, a) <= 1);
        } else {
            assert(forall|a: Address| #[trigger] net_adds(pre, a) == 0);
        }
        lemma_listed_step(replay(v, pre), pre, evs.last(), evs);
    }
}

/// One more event keeps "listed exactly when added once more than removed".
proof fn lemma_listed_step(r: SessionView, pre: Seq<SessionEvent>, e: SessionEvent, evs: Seq<SessionEvent>)
    requires
        r.wf(),
        evs.len() > 0,
        pre == evs.drop_last(),
        e == evs.last(),
        forall|a: Address| #[trigger] has_address(r.devices, a) <==> net_adds(pre, a) == 1,
        forall|a: Address| 0 <= #[trigger] net_adds(pre, a) <= 1,
        forall|a: Address| 0 <= #[trigger] net_adds(evs, a) <= 1,
    ensures
        apply(r, e).wf(),
        forall|a: Address| #[trigger] has_address(apply(r, e).devices, a) <==> net_adds(evs, a) == 1,
{
    lemma_apply_wf(r, e);
    match e {
        SessionEvent::Added(b) => {
            lemma_added_devices(r, b);
            assert forall|a: Address| #[trigger] has_address(apply(r, e).devices, a) <==> net_adds(evs, a) == 1 by {
                assert(has_address(r.devices, a) <==> net_adds(pre, a) == 1);
                assert(has_address(r.added(b).devices, a) <==> (has_address(r.devices, a) || a == b));
                assert(0 <= net_adds(pre, a) <= 1);
                assert(0 <= net_adds(evs, a) <= 1);
            }
        },
        SessionEvent::Removed(b) => {
            lemma_removed_devices(r, b);
            assert forall|a: Address| #[trigger] has_address(apply(r, e).devices, a) <==> net_adds(evs, a) == 1 by {
                assert(has_address(r.devices, a) <==> net_adds(pre, a) == 1);
                assert(has_address(r.removed(b).devices, a) <==> (has_address(r.devices, a) && a != b));
                assert(0 <= net_adds(pre, a) <= 1);
                assert(0 <= net_adds(evs, a) <= 1);
            }
        },
        SessionEvent::Renamed(lookups) => {
            lemma_renamed_devices(r, lookups);
            assert forall|a: Address| #[trigger] has_address(apply(r, e).devices, a) <==> net_adds(evs, a) == 1 by {
                assert(has_address(r.devices, a) <==> net_adds(pre, a) == 1);
                assert(net_adds(evs, a) == net_adds(pre, a));
            }
        },
        _ => {
            assert forall|a: Address| #[trigger] has_address(apply(r, e).devices, a) <==> net_adds(evs, a) == 1 by {
                assert(has_address(r.devices, a) <==> net_adds(pre, a) == 1);
                assert(net_adds(evs, a) == net_adds(pre, a));
            }
        },
    }
}

/// Adding is idempotent: the same address added twice in a row gives the
/// session that one addition gives, with one entry for the address.
pub proof fn lemma_add_idempotent(v: SessionView, a: Address)
    requires
        v.wf(),
    ensures
        v.added(a).added(a) == v.added(a),
        has_address(v.added(a).devices, a),
        forall|i: int, j: int|
            0 <= i < v.added(a).devices.len() && 0 <= j < v.added(a).devices.len()
                && #[trigger] v.added(a).devices[i].address == a && #[trigger] v.added(a).devices[j].address
                == a ==> i == j,
{
    lemma_added_devices(v, a);
}

/// A full cycle of moves down through `n` names comes back to the name it
/// started from.
pub proof fn lemma_down_cycle(i: nat, n: nat)
    requires
        i < n,
    ensures
        downs(Some(i), n, n) == Some(i),
{
    lemma_downs_from_some(i, n, n);
    assert(((i + n) as int) % (n as int) == i) by (nonlinear_arith)
        requires
            i < n,
    ;
}

proof fn lemma_downs_from_some(i: nat, n: nat, k: nat)
    requires
        i < n,
    ensures
        downs(Some(i), n, k) == Some((((i + k) as int) % (n as int)) as nat),
    decreases k,
{
    if k > 0 {
        lemma_downs_from_some(i, n, (k - 1) as nat);
        let p = ((i + k - 1) as int) % (n as int);
        assert((p + 1) % (n as int) == ((i + k) as int) % (n as int)) by (nonlinear_arith)
            requires
                p == ((i + k - 1) as int) % (n as int),
                n > 0,
        {
            vstd::arithmetic::div_mod::lemma_add_mod_noop((i + k - 1) as int, 1, n as int);
        }
    } else {
        assert((i as int) % (n as int) == i) by (nonlinear_arith)
            requires
                i < n,
        ;
    }
}

/// From no selection, `k` moves down through `n` names (`1 <= k <= n`)
/// land on position `k - 1`: one move selects the first name, and it takes
/// `n + 1` moves to come back to it. So `n` moves from no selection land on
/// the first name exactly when there is a single name.
pub proof fn lemma_downs_from_none(n: nat, k: nat)
    requires
        1 <= k <= n,
    ensures
        downs(None, n, k) == Some((k - 1) as nat),
        downs(None, n, n + 1) == Some(0nat),
        downs(None, n, n) == Some(0nat) <==> n == 1,
{
    lemma_downs_none_prefix(n, k);
    lemma_downs_none_prefix(n, n);
    assert(downs(None, n, n + 1) == select_down(downs(None, n, n), n));
    assert(((n - 1 + 1) as int) % (n as int) == 0) by (nonlinear_arith)
        requires
            n >= 1,
    ;
}

proof fn lemma_downs_none_prefix(n: nat, k: nat)
    requires
        1 <= k <= n,
    ensures
        downs(None, n, k) == Some((k - 1) as nat),
    decreases k,
{
    assert(downs(None, n, k) == select_down(downs(None, n, (k - 1) as nat), n));
    if k > 1 {
        lemma_downs_none_prefix(n, (k - 1) as nat);
        assert(((k - 2 + 1) as int) % (n as int) == k - 1) by (nonlinear_arith)
            requires
                k <= n,
                k >= 2,
        ;
    } else {
        assert(downs(None, n, 0) == None::<nat>);
    }
}

/// Toggling twice restores the power state and leaves no devices and no
/// selection; a session that had none is restored as it was.
pub proof fn lemma_toggle_twice(v: SessionView)
    ensures
        v.toggled().toggled().powered == v.powered,
        v.toggled().toggled().devices.len() == 0,
        v.toggled().toggled().selected is None,
        v.devices.len() == 0 && v.selected is None ==> v.toggled().toggled() == v,
{
    if v.devices.len() == 0 && v.selected is None {
        assert(v.toggled().toggled().devices =~= v.devices);
    }
}

} // verus!
