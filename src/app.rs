use vstd::prelude::*;

use crate::address::Address;
use crate::ui::{same_text, Color};

verus! {

/// A peripheral the session knows of: its hardware address, which is its
/// identity, and the name its last lookup produced, if any.
pub struct DeviceEntry {
    pub address: Address,
    pub name: Option<String>,
}

/// What a `DeviceEntry` stands for.
pub struct DeviceView {
    pub address: Address,
    pub name: Option<Seq<char>>,
}

impl View for DeviceEntry {
    type V = DeviceView;

    open spec fn view(&self) -> DeviceView {
        DeviceView {
            address: self.address,
            name: match self.name {
                Some(s) => Some(s@),
                None => None,
            },
        }
    }
}

/// Whether the session still runs or has been asked to stop.
#[derive(Clone, Copy, Debug, PartialEq, Eq, Structural)]
pub enum Lifecycle {
    Running,
    ShuttingDown,
}

pub open spec fn devices_view(v: Seq<DeviceEntry>) -> Seq<DeviceView> {
    v.map_values(|d: DeviceEntry| d@)
}

pub open spec fn strings_view(v: Seq<String>) -> Seq<Seq<char>> {
    v.map_values(|s: String| s@)
}

/// The names shown for a device list: the resolved names, in list order,
/// with the devices whose name is unknown left out.
pub open spec fn names_of(devices: Seq<DeviceView>) -> Seq<Seq<char>>
    decreases devices.len(),
{
    if devices.len() == 0 {
        Seq::empty()
    } else {
        let rest = names_of(devices.drop_last());
        match devices.last().name {
            Some(n) => rest.push(n),
            None => rest,
        }
    }
}

pub open spec fn has_address(devices: Seq<DeviceView>, a: Address) -> bool {
    exists|i: int| 0 <= i < devices.len() && #[trigger] devices[i].address == a
}

/// Position of the first device with address `a` (meaningful when there is one).
pub open spec fn first_index(devices: Seq<DeviceView>, a: Address) -> int {
    choose|i: int|
        0 <= i < devices.len() && devices[i].address == a && forall|j: int|
            0 <= j < i ==> #[trigger] devices[j].address != a
}

pub open spec fn unique_addresses(devices: Seq<DeviceView>) -> bool {
    forall|i: int, j: int|
        0 <= i < devices.len() && 0 <= j < devices.len() && i != j ==> #[trigger] devices[i].address
            != #[trigger] devices[j].address
}

/// Selection after moving down through `n` names: from nothing to the
/// first name, from the last name back to the first.
pub open spec fn select_down(sel: Option<nat>, n: nat) -> Option<nat> {
    match sel {
        None => if n > 0 { Some(0) } else { None },
        Some(i) => if n > 0 { Some(((i + 1) % n) as nat) } else { None },
    }
}

/// Selection after moving up: from the first name to nothing (focus goes
/// back to the status pane); nothing stays nothing.
pub open spec fn select_up(sel: Option<nat>) -> Option<nat> {
    match sel {
        None => None,
        Some(i) => if i == 0 { None } else { Some((i - 1) as nat) },
    }
}

/// A selection that would point past `n` names is dropped.
pub open spec fn clamp(sel: Option<nat>, n: nat) -> Option<nat> {
    match sel {
        Some(i) => if i < n { Some(i) } else { None },
        None => None,
    }
}

/// Selection after the name at `slot` left the list: a selection of that
/// name is dropped, one further down follows its name up by one.
pub open spec fn select_after_removal(sel: Option<nat>, slot: nat) -> Option<nat> {
    match sel {
        None => None,
        Some(j) => if j == slot {
            None
        } else if j > slot {
            Some((j - 1) as nat)
        } else {
            Some(j)
        },
    }
}

/// Abstract state of a session.
pub struct SessionView {
    pub devices: Seq<DeviceView>,
    pub selected: Option<nat>,
    pub powered: bool,
    pub lifecycle: Lifecycle,
}

impl SessionView {
    pub open spec fn initial() -> SessionView {
        SessionView {
            devices: Seq::empty(),
            selected: None,
            powered: false,
            lifecycle: Lifecycle::Running,
        }
    }

    pub open spec fn names(self) -> Seq<Seq<char>> {
        names_of(self.devices)
    }

    pub open spec fn addresses(self) -> Set<Address> {
        Set::new(|a: Address| has_address(self.devices, a))
    }

    pub open spec fn wf(self) -> bool {
        &&& unique_addresses(self.devices)
        &&& self.selected matches Some(i) ==> i < self.names().len()
    }

    /// A newly seen address joins the end of the list, its name not yet
    /// known; an address already listed changes nothing.
    pub open spec fn added(self, a: Address) -> SessionView {
        if has_address(self.devices, a) {
            self
        } else {
            SessionView { devices: self.devices.push(DeviceView { address: a, name: None }), ..self }
        }
    }

    /// The device with address `a`, if listed, leaves the list.
    pub open spec fn removed(self, a: Address) -> SessionView {
        if has_address(self.devices, a) {
            let k = first_index(self.devices, a);
            let slot = names_of(self.devices.take(k)).len();
            SessionView {
                devices: self.devices.remove(k),
                selected: if self.devices[k].name is Some {
                    select_after_removal(self.selected, slot)
                } else {
                    self.selected
                },
                ..self
            }
        } else {
            self
        }
    }

    /// The names are replaced wholesale by fresh lookups, one per device in
    /// list order; a device without a lookup gets no name.
    pub open spec fn renamed(self, lookups: Seq<Option<Seq<char>>>) -> SessionView {
        let devices = Seq::new(
            self.devices.len(),
            |i: int|
                DeviceView {
                    address: self.devices[i].address,
                    name: if i < lookups.len() {
                        lookups[i]
                    } else {
                        None
                    },
                },
        );
        SessionView { devices, selected: clamp(self.selected, names_of(devices).len()), ..self }
    }

    pub open spec fn cleared(self) -> SessionView {
        SessionView { devices: Seq::empty(), selected: None, ..self }
    }

    pub open spec fn with_status(self, powered: bool) -> SessionView {
        SessionView { powered, ..self }
    }

    pub open spec fn moved_down(self) -> SessionView {
        SessionView { selected: select_down(self.selected, self.names().len()), ..self }
    }

    pub open spec fn moved_up(self) -> SessionView {
        SessionView { selected: select_up(self.selected), ..self }
    }

    /// What a confirmed toggle of the radio does to the session.
    pub open spec fn toggled(self) -> SessionView {
        self.cleared().with_status(!self.powered)
    }

    pub open spec fn shut_down(self) -> SessionView {
        SessionView { lifecycle: Lifecycle::ShuttingDown, ..self }
    }
}

pub open spec fn lookups_view(v: Seq<Option<String>>) -> Seq<Option<Seq<char>>> {
    v.map_values(
        |o: Option<String>|
            match o {
                Some(s) => Some(s@),
                None => None,
            },
    )
}

/// Names of a concatenation are the concatenation of the names.
pub proof fn lemma_names_of_append(a: Seq<DeviceView>, b: Seq<DeviceView>)
    ensures
        names_of(a + b) == names_of(a) + names_of(b),
    decreases b.len(),
{
    if b.len() == 0 {
        assert(a + b =~= a);
        assert(names_of(a) + names_of(b) =~= names_of(a));
    } else {
        lemma_names_of_append(a, b.drop_last());
        assert((a + b).drop_last() =~= a + b.drop_last());
        assert((a + b).last() == b.last());
        match b.last().name {
            Some(n) => {
                assert(names_of(a) + names_of(b) =~= (names_of(a) + names_of(b.drop_last())).push(n));
            },
            None => {},
        }
    }
}

/// The name count of a prefix grows by one exactly at a named device.
proof fn lemma_names_of_take_step(s: Seq<DeviceView>, i: int)
    requires
        0 <= i < s.len(),
    ensures
        names_of(s.take(i + 1)) == match s[i].name {
            Some(n) => names_of(s.take(i)).push(n),
            None => names_of(s.take(i)),
        },
{
    assert(s.take(i + 1).drop_last() =~= s.take(i));
}

/// Removing the device at `k` removes its name, if it has one, and only that.
pub(crate) proof fn lemma_names_of_remove(s: Seq<DeviceView>, k: int)
    requires
        0 <= k < s.len(),
    ensures
        names_of(s) == names_of(s.take(k)) + names_of(seq![s[k]]) + names_of(s.skip(k + 1)),
        names_of(s.remove(k)) == names_of(s.take(k)) + names_of(s.skip(k + 1)),
        names_of(seq![s[k]]).len() == if s[k].name is Some { 1nat } else { 0nat },
{
    assert(s =~= s.take(k) + seq![s[k]] + s.skip(k + 1));
    assert(s.remove(k) =~= s.take(k) + s.skip(k + 1));
    lemma_names_of_append(s.take(k) + seq![s[k]], s.skip(k + 1));
    lemma_names_of_append(s.take(k), seq![s[k]]);
    lemma_names_of_append(s.take(k), s.skip(k + 1));
    let one = seq![s[k]];
    assert(one.drop_last() =~= Seq::<DeviceView>::empty());
    assert(names_of(one.drop_last()).len() == 0);
    assert(one.last() == s[k]);
}

/// Position of the first device with address `addr`, if any.
fn position_of(devices: &Vec<DeviceEntry>, addr: Address) -> (r: Option<usize>)
    ensures
        match r {
            Some(k) => {
                &&& has_address(devices_view(devices@), addr)
                &&& k < devices@.len()
                &&& k == first_index(devices_view(devices@), addr)
            },
            None => !has_address(devices_view(devices@), addr),
        },
{
    let ghost dv = devices_view(devices@);
    let mut i: usize = 0;
    while i < devices.len()
        invariant
            i <= devices.len(),
            dv == devices_view(devices@),
            forall|j: int| 0 <= j < i ==> #[trigger] dv[j].address != addr,
        decreases devices.len() - i,
    {
        if devices[i].address.same_as(&addr) {
            assert(dv[i as int].address == addr);
            let ghost f = first_index(dv, addr);
            assert(0 <= f < dv.len() && dv[f].address == addr && forall|j: int|
                0 <= j < f ==> #[trigger] dv[j].address != addr) by {
                assert(forall|j: int| 0 <= j < i ==> #[trigger] dv[j].address != addr);
            }
            assert(f == i as int) by {
                if f < i {
                    assert(dv[f].address != addr);
                } else if f > i {
                    assert(dv[i as int].address != addr);
                }
            }
            return Some(i);
        }
        i += 1;
    }
    None
}

/// The names to show for `devices`, recomputed from scratch.
fn collect_names(devices: &Vec<DeviceEntry>) -> (r: Vec<String>)
    ensures
        strings_view(r@) == names_of(devices_view(devices@)),
{
    let ghost dv = devices_view(devices@);
    let mut r: Vec<String> = Vec::new();
    let mut i: usize = 0;
    assert(dv.take(0) =~= Seq::<DeviceView>::empty());
    assert(strings_view(r@) =~= Seq::<Seq<char>>::empty());
    while i < devices.len()
        invariant
            i <= devices.len(),
            dv == devices_view(devices@),
            strings_view(r@) == names_of(dv.take(i as int)),
        decreases devices.len() - i,
    {
        proof {
            lemma_names_of_take_step(dv, i as int);
        }
        match &devices[i].name {
            Some(n) => {
                let ghost before = r@;
                r.push(n.clone());
                assert(strings_view(r@) =~= strings_view(before).push(n@));
            },
            None => {},
        }
        i += 1;
    }
    assert(dv.take(devices@.len() as int) =~= dv);
    r
}

/// The state that the tasks of a session share: the radio's power as last
/// confirmed, the devices seen, the names shown for them and the cursor
/// into those names.
pub struct App {
    devices: Vec<DeviceEntry>,
    informations: Vec<String>,
    selected_device: Option<usize>,
    status: bool,
    lifecycle: Lifecycle,
}

impl View for App {
    type V = SessionView;

    closed spec fn view(&self) -> SessionView {
        SessionView {
            devices: devices_view(self.devices@),
            selected: match self.selected_device {
                Some(i) => Some(i as nat),
                None => None,
            },
            powered: self.status,
            lifecycle: self.lifecycle,
        }
    }
}

impl App {
    #[verifier::type_invariant]
    spec fn inv(&self) -> bool {
        &&& strings_view(self.informations@) == names_of(devices_view(self.devices@))
        &&& self@.wf()
    }

    /// A session with the radio off and no devices.
    pub fn new() -> (r: App)
        ensures
            r@ == SessionView::initial(),
    {
        let devices: Vec<DeviceEntry> = Vec::new();
        let informations: Vec<String> = Vec::new();
        assert(devices_view(devices@) =~= Seq::empty());
        assert(strings_view(informations@) =~= Seq::empty());
        let r = App { devices, informations, selected_device: None, status: false, lifecycle: Lifecycle::Running };
        r
    }

    /// Moves the whole state out, leaving a fresh session in its place.
    fn take(&mut self) -> (r: App)
        ensures
            r == *old(self),
    {
        let mut r = App::new();
        std::mem::swap(self, &mut r);
        r
    }

    /// Inserts the device with address `addr` at the end of the list, unless
    /// one with that address is listed already. Its name stays unknown
    /// until the names are next recomputed.
    pub fn add_device(&mut self, addr: Address)
        ensures
            final(self)@ == old(self)@.added(addr),
    {
        let cur = self.take();
        proof {
            use_type_invariant(&cur);
        }
        let App { mut devices, informations, selected_device, status, lifecycle } = cur;
        let ghost dv = devices_view(devices@);
        if position_of(&devices, addr).is_none() {
            devices.push(DeviceEntry { address: addr, name: None });
            proof {
                let nv = devices_view(devices@);
                assert(nv =~= dv.push(DeviceView { address: addr, name: None }));
                assert(nv.drop_last() =~= dv);
                assert forall|i: int, j: int|
                    0 <= i < nv.len() && 0 <= j < nv.len() && i != j implies #[trigger] nv[i].address
                    != #[trigger] nv[j].address by {
                    if i == dv.len() {
                        assert(dv[j].address != addr);
                    } else if j == dv.len() {
                        assert(dv[i].address != addr);
                    }
                }
            }
        }
        *self = App { devices, informations, selected_device, status, lifecycle };
    }

    /// Replaces every device's name by a fresh lookup, `names[i]` for the
    /// `i`-th device (a device past the end of `names` gets none), and
    /// recomputes the names shown from them. A selection past the new names
    /// is dropped.
    pub fn device_information(&mut self, names: Vec<Option<String>>)
        ensures
            final(self)@ == old(self)@.renamed(lookups_view(names@)),
    {
        let cur = self.take();
        proof {
            use_type_invariant(&cur);
        }
        let App { devices, informations: _, selected_device, status, lifecycle } = cur;
        let ghost target = cur@.renamed(lookups_view(names@)).devices;
        let ghost dv = devices_view(devices@);
        let mut renamed: Vec<DeviceEntry> = Vec::new();
        let mut i: usize = 0;
        while i < devices.len()
            invariant
                i <= devices.len(),
                dv == devices_view(devices@),
                target.len() == dv.len(),
                forall|k: int| 0 <= k < target.len() ==> #[trigger] target[k].address == dv[k].address,
                forall|k: int|
                    0 <= k < target.len() ==> #[trigger] target[k].name == if k < names@.len() {
                        lookups_view(names@)[k]
                    } else {
                        None
                    },
                devices_view(renamed@) == target.take(i as int),
            decreases devices.len() - i,
        {
            let name = if i < names.len() {
                match &names[i] {
                    Some(n) => Some(n.clone()),
                    None => None,
                }
            } else {
                None
            };
            let ghost before = renamed@;
            let entry = DeviceEntry { address: devices[i].address, name };
            assert(entry@ == target[i as int]) by {
                assert(entry@.address == target[i as int].address);
                assert(entry@.name == target[i as int].name);
            }
            renamed.push(entry);
            assert(devices_view(renamed@) =~= devices_view(before).push(target[i as int]));
            assert(target.take(i + 1) =~= target.take(i as int).push(target[i as int]));
            i += 1;
        }
        assert(target.take(i as int) =~= target);
        let informations = collect_names(&renamed);
        let selected_device = match selected_device {
            Some(j) => if j < informations.len() {
                Some(j)
            } else {
                None
            },
            None => None,
        };
        proof {
            assert(devices_view(renamed@) =~= target);
            assert(informations@.len() == names_of(target).len());
        }
        *self = App { devices: renamed, informations, selected_device, status, lifecycle };
    }

    /// Forgets every device and its name, and the selection with them.
    pub fn clear_devices(&mut self)
        ensures
            final(self)@ == old(self)@.cleared(),
    {
        let cur = self.take();
        let App { devices: _, informations: _, selected_device: _, status, lifecycle } = cur;
        let devices: Vec<DeviceEntry> = Vec::new();
        let informations: Vec<String> = Vec::new();
        assert(devices_view(devices@) =~= Seq::empty());
        assert(strings_view(informations@) =~= Seq::empty());
        *self = App { devices, informations, selected_device: None, status, lifecycle };
    }

    /// Records the radio's power state as the driver confirmed it.
    pub fn set_status(&mut self, powered: bool)
        ensures
            final(self)@ == old(self)@.with_status(powered),
    {
        proof {
            use_type_invariant(&*self);
        }
        self.status = powered;
    }

    /// Marks the session as shutting down.
    pub fn request_shutdown(&mut self)
        ensures
            final(self)@ == old(self)@.shut_down(),
    {
        proof {
            use_type_invariant(&*self);
        }
        self.lifecycle = Lifecycle::ShuttingDown;
    }

    /// Moves the selection: `"up"` and `"down"` as `SessionView::moved_up`
    /// and `SessionView::moved_down` describe; any other direction changes
    /// nothing.
    pub fn change_selection(&mut self, direction: &str)
        ensures
            final(self)@ == if direction@ == "up"@ {
                old(self)@.moved_up()
            } else if direction@ == "down"@ {
                old(self)@.moved_down()
            } else {
                old(self)@
            },
    {
        if same_text(direction, "up") {
            self.selection_up();
        } else if same_text(direction, "down") {
            self.selection_down();
        }
    }

    fn selection_up(&mut self)
        ensures
            final(self)@ == old(self)@.moved_up(),
    {
        proof {
            use_type_invariant(&*self);
        }
        match self.selected_device {
            Some(i) => {
                if i == 0 {
                    self.selected_device = None;
                } else {
                    self.selected_device = Some(i - 1);
                }
            },
            None => {},
        }
    }

    fn selection_down(&mut self)
        ensures
            final(self)@ == old(self)@.moved_down(),
    {
        proof {
            use_type_invariant(&*self);
        }
        let n = self.informations.len();
        if n > 0 {
            match self.selected_device {
                Some(i) => {
                    self.selected_device = Some((i + 1) % n);
                },
                None => {
                    self.selected_device = Some(0);
                },
            }
        }
    }

    /// The colour of the status text: green for `"On"`, red otherwise.
    pub fn status_color(&self, status: &str) -> (r: Color)
        ensures
            r == if status@ == "On"@ {
                Color::Green
            } else {
                Color::Red
            },
    {
        if same_text(status, "On") {
            Color::Green
        } else {
            Color::Red
        }
    }

    /// The colour of the status pane's label: highlighted while the cursor
    /// rests on the status pane, that is while no device is selected.
    pub fn toggle_selected(&self) -> (r: Color)
        ensures
            r == if self@.selected is None {
                Color::Magenta
            } else {
                Color::White
            },
    {
        match self.selected_device {
            None => Color::Magenta,
            Some(_) => Color::White,
        }
    }

    /// The status text shown for the radio.
    pub fn status_text(&self) -> (r: &'static str)
        ensures
            r@ == if self@.powered {
                "On"@
            } else {
                "Off"@
            },
    {
        if self.status {
            "On"
        } else {
            "Off"
        }
    }

    /// What a confirmed power change does to the session: the device list
    /// is dropped (discovery starts afresh when powered) and the new state
    /// recorded.
    pub fn power_changed(&mut self, powered: bool)
        ensures
            final(self)@ == old(self)@.cleared().with_status(powered),
    {
        self.clear_devices();
        self.set_status(powered);
    }

    /// Whether the radio is powered, as last confirmed.
    pub fn status(&self) -> (r: bool)
        ensures
            r == self@.powered,
    {
        self.status
    }

    pub fn lifecycle(&self) -> (r: Lifecycle)
        ensures
            r == self@.lifecycle,
    {
        self.lifecycle
    }

    /// The selected position in the names shown, if any.
    pub fn selected_device(&self) -> (r: Option<usize>)
        ensures
            r matches Some(i) ==> self@.selected == Some(i as nat) && i < self@.names().len(),
            r is None ==> self@.selected is None,
    {
        proof {
            use_type_invariant(self);
        }
        self.selected_device
    }

    /// The names shown, in list order.
    pub fn informations(&self) -> (r: &Vec<String>)
        ensures
            strings_view(r@) == self@.names(),
    {
        proof {
            use_type_invariant(self);
        }
        &self.informations
    }

    /// The devices, in the order they were first seen.
    pub fn devices(&self) -> (r: &Vec<DeviceEntry>)
        ensures
            devices_view(r@) == self@.devices,
    {
        &self.devices
    }

    /// Takes the device with address `addr` out of the list, with its name;
    /// a selection of that name is dropped and one further down moves up
    /// with its name. Returns whether the address was listed.
    pub fn remove_device(&mut self, addr: Address) -> (found: bool)
        ensures
            found == has_address(old(self)@.devices, addr),
            final(self)@ == old(self)@.removed(addr),
    {
        let cur = self.take();
        proof {
            use_type_invariant(&cur);
        }
        let App { mut devices, informations, selected_device, status, lifecycle } = cur;
        let ghost dv = devices_view(devices@);
        match position_of(&devices, addr) {
            None => {
                *self = App { devices, informations, selected_device, status, lifecycle };
                false
            },
            Some(k) => {
                let named = devices[k].name.is_some();
                let mut slot: usize = 0;
                let mut i: usize = 0;
                assert(dv.take(0) =~= Seq::<DeviceView>::empty());
                while i < k
                    invariant
                        i <= k < devices.len(),
                        dv == devices_view(devices@),
                        slot == names_of(dv.take(i as int)).len(),
                        slot <= i,
                    decreases k - i,
                {
                    proof {
                        lemma_names_of_take_step(dv, i as int);
                    }
                    if devices[i].name.is_some() {
                        slot += 1;
                    }
                    i += 1;
                }
                proof {
                    lemma_names_of_remove(dv, k as int);
                }
                devices.remove(k);
                let ghost nv = devices_view(devices@);
                assert(nv =~= dv.remove(k as int));
                let informations = collect_names(&devices);
                let selected_device = match selected_device {
                    Some(j) => if !named {
                        Some(j)
                    } else if j == slot {
                        None
                    } else if j > slot {
                        Some(j - 1)
                    } else {
                        Some(j)
                    },
                    None => None,
                };
                proof {
                    assert forall|i: int, j: int|
                        0 <= i < nv.len() && 0 <= j < nv.len() && i != j implies #[trigger] nv[i].address
                        != #[trigger] nv[j].address by {
                        let oi = if i < k { i } else { i + 1 };
                        let oj = if j < k { j } else { j + 1 };
                        assert(nv[i] == dv[oi] && nv[j] == dv[oj]);
                    }
                }
                *self = App { devices, informations, selected_device, status, lifecycle };
                true
            },
        }
    }
}

} // verus!
