use vstd::prelude::*;

use crate::component::{copy_stream, view_inputs, view_opt_stream, Component, StreamView};
use crate::modulation::{lerp_spec, modulation_fits, modulation_ready, Lerp};
use crate::specifier::{EnumerateValues, RefRuntimeSpecifier, RuntimeSpecifier, SpecId};
use crate::stream::{AnyIterInner, Stream};
use crate::value::Value;
use fxhash::{FxHashMap, FxHasher};
use std::hash::BuildHasherDefault;
use std::marker::PhantomData;

verus! {

#[verifier::external_type_specification]
#[verifier::external_body]
pub struct ExFxHasher(FxHasher);

#[verifier::external_type_specification]
#[verifier::external_body]
#[verifier::reject_recursive_types(H)]
pub struct ExBuildHasherDefault<H>(BuildHasherDefault<H>);

fn storage_new<V>() -> (r: FxHashMap<usize, V>)
    ensures
        r@ == Map::<usize, V>::empty(),
{
    FxHashMap::default()
}

/// Relies on `HashMap::insert`: afterwards `k` maps to `v` and every other key is kept.
/// fxhash's hasher is deterministic, which is all that the map's behaviour needs.
#[verifier::external_body]
fn storage_insert<V>(m: &mut FxHashMap<usize, V>, k: usize, v: V)
    ensures
        final(m)@ == old(m)@.insert(k, v),
{
    m.insert(k, v);
}

/// Relies on `HashMap::get`: the value that `k` maps to.
#[verifier::external_body]
fn storage_get<V>(m: &FxHashMap<usize, V>, k: usize) -> (r: &V)
    requires
        m@.contains_key(k),
    ensures
        *r == m@[k],
{
    m.get(&k).unwrap()
}

/// Relies on `HashMap::get_mut`: a reference to the value that `k` maps to, through which
/// that value, and nothing else, may change.
#[verifier::external_body]
fn storage_get_mut<V>(m: &mut FxHashMap<usize, V>, k: usize) -> (r: &mut V)
    requires
        old(m)@.contains_key(k),
    ensures
        *r == old(m)@[k],
        final(m)@ == old(m)@.insert(k, *final(r)),
{
    m.get_mut(&k).unwrap()
}

/// Facts about the tick being computed.
#[derive(Clone, Copy, Debug, PartialEq, Eq, Structural)]
pub struct ContextMeta {
    /// Samples per second.
    pub samples: usize,
}

/// An address on a component, or on the rack's own boundary.
#[derive(Clone, Copy, Debug)]
pub enum ElementSpecifier<Id> {
    Component { id: Id },
    Rack,
}

impl ElementSpecifier<usize> {
    /// The same address with the component's position replaced by its permanent id.
    fn fill_id(self, ids: &Vec<ComponentId>) -> (r: ElementSpecifier<ComponentId>)
        requires
            self matches ElementSpecifier::Component { id } ==> id < ids@.len(),
        ensures
            r == (match self {
                ElementSpecifier::Component { id } => ElementSpecifier::Component {
                    id: ids@[id as int],
                },
                ElementSpecifier::Rack => ElementSpecifier::<ComponentId>::Rack,
            }),
    {
        match self {
            ElementSpecifier::Component { id } => ElementSpecifier::Component { id: ids[id] },
            ElementSpecifier::Rack => ElementSpecifier::Rack,
        }
    }
}

/// Marks a wire end at a parameter.
#[derive(Clone, Copy, Debug, PartialEq, Eq, Structural)]
pub struct Param;

/// Marks a wire end at an input.
#[derive(Clone, Copy, Debug, PartialEq, Eq, Structural)]
pub struct Input;

/// Marks a wire end at an output.
#[derive(Clone, Copy, Debug, PartialEq, Eq, Structural)]
pub struct Output;

/// One end of a wire: a slot index on an element.
#[derive(Clone, Copy, Debug)]
pub struct GenericWire<Marker, Id> {
    pub io_index: SpecId,
    pub element: ElementSpecifier<Id>,
    pub marker: Marker,
}

impl<M, Id: Copy> GenericWire<M, Id> {
    fn element(&self) -> (r: ElementSpecifier<Id>)
        ensures
            r == self.element,
    {
        self.element
    }
}

/// A resolved wire end, addressed by permanent component id.
#[derive(Clone, Copy, Debug)]
pub struct Wire<Marker>(pub GenericWire<Marker, ComponentId>);

/// Where a wire starts, addressed by component position.
#[derive(Clone, Copy, Debug)]
pub struct WireSrc(pub GenericWire<Output, usize>);

#[derive(Clone, Copy, Debug)]
pub enum WireDstInner {
    /// A parameter, with the value that the wire drives it towards.
    Param(Value, GenericWire<Param, usize>),
    Input(GenericWire<Input, usize>),
}

/// Where a wire ends, addressed by component position.
#[derive(Clone, Copy, Debug)]
pub struct WireDst(pub WireDstInner);

impl WireDst {
    /// The rack's own output `output`.
    pub fn rack_output<S: RuntimeSpecifier>(output: S) -> (r: Self)
        ensures
            r.0 matches WireDstInner::Input(w) && w.element is Rack && w.io_index
                == output.spec_id(),
    {
        WireDst(
            WireDstInner::Input(
                GenericWire { io_index: output.id(), element: ElementSpecifier::Rack, marker: Input },
            ),
        )
    }

    /// Input `input` of the component at position `component_index`.
    pub fn component_input<S: RuntimeSpecifier>(component_index: usize, input: S) -> (r: Self)
        ensures
            r.0 matches WireDstInner::Input(w) && w.element == (ElementSpecifier::Component {
                id: component_index,
            }) && w.io_index == input.spec_id(),
    {
        WireDst(
            WireDstInner::Input(
                GenericWire {
                    io_index: input.id(),
                    element: ElementSpecifier::Component { id: component_index },
                    marker: Input,
                },
            ),
        )
    }

    /// Parameter `param` of the component at position `component_index`, driven towards
    /// `value`.
    pub fn component_param<S: RuntimeSpecifier>(component_index: usize, param: S, value: Value) -> (r:
        Self)
        ensures
            r.0 matches WireDstInner::Param(v, w) && v == value && w.element == (
            ElementSpecifier::Component { id: component_index }) && w.io_index == param.spec_id(),
    {
        WireDst(
            WireDstInner::Param(
                value,
                GenericWire {
                    io_index: param.id(),
                    element: ElementSpecifier::Component { id: component_index },
                    marker: Param,
                },
            ),
        )
    }
}

impl WireSrc {
    /// The rack's own input `input`.
    pub fn rack_input<S: RuntimeSpecifier>(input: S) -> (r: Self)
        ensures
            r.0.element is Rack && r.0.io_index == input.spec_id(),
    {
        WireSrc(GenericWire { io_index: input.id(), element: ElementSpecifier::Rack, marker: Output })
    }

    /// Output `output` of the component at position `component_index`.
    pub fn component_output<S: RuntimeSpecifier>(component_index: usize, output: S) -> (r: Self)
        ensures
            r.0.element == (ElementSpecifier::Component { id: component_index }) && r.0.io_index
                == output.spec_id(),
    {
        WireSrc(
            GenericWire {
                io_index: output.id(),
                element: ElementSpecifier::Component { id: component_index },
                marker: Output,
            },
        )
    }

    /// This wire start, with its component's position replaced by the permanent id.
    fn fill_id(self, ids: &Vec<ComponentId>) -> (r: Wire<Output>)
        requires
            self.0.element matches ElementSpecifier::Component { id } ==> id < ids@.len(),
        ensures
            r == resolve_src(self, ids@),
    {
        Wire(GenericWire { io_index: self.0.io_index, element: self.0.element.fill_id(ids), marker: Output })
    }
}

/// The permanent identity of a component in a rack.
#[derive(Clone, Copy, Debug, PartialEq, Eq, Structural)]
pub struct ComponentId(pub usize);

/// A wire into a parameter: where the modulation comes from, and the value that it drives
/// the parameter towards.
#[derive(Clone, Copy, Debug)]
pub struct ParamWire {
    pub src: Wire<Output>,
    pub value: Value,
}

/// A parameter slot: its natural value and the wire that drives it, if any.
#[derive(Clone, Copy, Debug)]
pub struct ParamValue {
    pub natural_value: Value,
    pub wire: Option<ParamWire>,
}

/// A component in a rack, with one wire slot for each of its inputs and parameters.
pub struct TaggedComponent<C> {
    pub inner: C,
    pub params: Vec<ParamValue>,
    pub inputs: Vec<Option<Wire<Output>>>,
}

/// Errors in addressing a wire or a parameter.
#[derive(Clone, Copy, Debug, PartialEq, Eq, Structural)]
pub enum RackError {
    /// No component stands at the given position.
    NoSuchComponent,
    /// The component or the rack has no slot with the given index.
    NoSuchSlot,
    /// The rack's boundary has no parameters to wire.
    ParamOnRack,
    /// A parameter's modulation stream cannot be averaged: it is empty, or it needs more
    /// set-aside partial sums than averaging holds.
    ModulationOutOfRange,
}

pub open spec fn resolve_src(src: WireSrc, ids: Seq<ComponentId>) -> Wire<Output> {
    Wire(
        GenericWire {
            io_index: src.0.io_index,
            element: match src.0.element {
                ElementSpecifier::Component { id } => ElementSpecifier::Component {
                    id: ids[id as int],
                },
                ElementSpecifier::Rack => ElementSpecifier::Rack,
            },
            marker: Output,
        },
    )
}

/// A tagged component has a slot for each input and each parameter of its component.
pub open spec fn shape_ok<C: Component>(tc: TaggedComponent<C>) -> bool {
    &&& tc.inputs@.len() == tc.inner.spec_input_count()
    &&& tc.params@.len() == tc.inner.spec_param_defaults().len()
}

/// The modulation samples that a stream gives: its samples if it is continuous.
pub open spec fn amount_of(o: Option<StreamView>) -> Option<Seq<Value>> {
    match o {
        Some(AnyIterInner::Analog(s)) => Some(s),
        _ => None,
    }
}

/// What wire `w` carries this tick, where `comps` are the components by position and
/// `globals` the rack's inputs. Reading a component output evaluates that component's
/// output from its inputs and parameters, pulled through their own wires in turn; each
/// step down uses up one unit of `fuel`, and a read that runs out of it is absent, so a
/// loop of outputs that read each other ends.
pub open spec fn eval_wire<C: Component>(
    comps: Seq<TaggedComponent<C>>,
    globals: Seq<Option<StreamView>>,
    w: Wire<Output>,
    fuel: nat,
) -> Option<StreamView>
    decreases fuel, 0nat,
{
    match w.0.element {
        ElementSpecifier::Rack => if w.0.io_index < globals.len() {
            globals[w.0.io_index as int]
        } else {
            None
        },
        ElementSpecifier::Component { id } => if fuel == 0 || id.0 >= comps.len() || w.0.io_index
            >= comps[id.0 as int].inner.spec_output_count() {
            None
        } else {
            let tc = comps[id.0 as int];
            Some(
                tc.inner.spec_output(
                    w.0.io_index as nat,
                    eval_inputs(comps, globals, tc, (fuel - 1) as nat),
                    eval_params(comps, globals, tc, (fuel - 1) as nat),
                ),
            )
        },
    }
}

/// What each input of `tc` receives: absent where the input is unwired.
pub open spec fn eval_inputs<C: Component>(
    comps: Seq<TaggedComponent<C>>,
    globals: Seq<Option<StreamView>>,
    tc: TaggedComponent<C>,
    fuel: nat,
) -> Seq<Option<StreamView>>
    decreases fuel, 1nat,
{
    Seq::new(
        tc.inputs@.len(),
        |k: int|
            match tc.inputs@[k] {
                Some(w) => eval_wire(comps, globals, w, fuel),
                None => None,
            },
    )
}

/// The effective value of each parameter of `tc`: its natural value where unwired,
/// otherwise its natural value blended towards the wire's value by the modulation read
/// from the wire.
pub open spec fn eval_params<C: Component>(
    comps: Seq<TaggedComponent<C>>,
    globals: Seq<Option<StreamView>>,
    tc: TaggedComponent<C>,
    fuel: nat,
) -> Seq<Value>
    decreases fuel, 1nat,
{
    Seq::new(
        tc.params@.len(),
        |k: int|
            match tc.params@[k].wire {
                Some(pw) => lerp_spec(
                    tc.params@[k].natural_value,
                    pw.value,
                    amount_of(eval_wire(comps, globals, pw.src, fuel)),
                ),
                None => tc.params@[k].natural_value,
            },
    )
}

/// Whether a modulation read can be averaged: it is absent or not continuous (and then
/// unused), or a non-empty stream within the averaging bound.
pub open spec fn amount_ready(o: Option<StreamView>) -> bool {
    match amount_of(o) {
        Some(a) => modulation_ready(a),
        None => true,
    }
}

/// Whether reading wire `w` meets only modulation streams that can be averaged, along
/// the whole pull that `eval_wire` describes.
pub open spec fn wire_ok<C: Component>(
    comps: Seq<TaggedComponent<C>>,
    globals: Seq<Option<StreamView>>,
    w: Wire<Output>,
    fuel: nat,
) -> bool
    decreases fuel, 0nat,
{
    match w.0.element {
        ElementSpecifier::Rack => true,
        ElementSpecifier::Component { id } => if fuel == 0 || id.0 >= comps.len() || w.0.io_index
            >= comps[id.0 as int].inner.spec_output_count() {
            true
        } else {
            let tc = comps[id.0 as int];
            all_true(inputs_ok(comps, globals, tc, (fuel - 1) as nat)) && all_true(
                params_ok(comps, globals, tc, (fuel - 1) as nat),
            )
        },
    }
}

pub open spec fn all_true(s: Seq<bool>) -> bool {
    forall|k: int| 0 <= k < s.len() ==> #[trigger] s[k]
}

/// For each input of `tc`, whether reading it meets only usable modulation streams.
pub open spec fn inputs_ok<C: Component>(
    comps: Seq<TaggedComponent<C>>,
    globals: Seq<Option<StreamView>>,
    tc: TaggedComponent<C>,
    fuel: nat,
) -> Seq<bool>
    decreases fuel, 1nat,
{
    Seq::new(
        tc.inputs@.len(),
        |k: int|
            match tc.inputs@[k] {
                Some(w) => wire_ok(comps, globals, w, fuel),
                None => true,
            },
    )
}

/// For each parameter of `tc`, whether its modulation, and all that reading it pulls,
/// can be averaged.
pub open spec fn params_ok<C: Component>(
    comps: Seq<TaggedComponent<C>>,
    globals: Seq<Option<StreamView>>,
    tc: TaggedComponent<C>,
    fuel: nat,
) -> Seq<bool>
    decreases fuel, 1nat,
{
    Seq::new(
        tc.params@.len(),
        |k: int|
            match tc.params@[k].wire {
                Some(pw) => wire_ok(comps, globals, pw.src, fuel) && amount_ready(
                    eval_wire(comps, globals, pw.src, fuel),
                ),
                None => true,
            },
    )
}

/// Whether the component at position `i` can take its next state from `comps`.
pub open spec fn step_ok<C: Component>(
    comps: Seq<TaggedComponent<C>>,
    globals: Seq<Option<StreamView>>,
    i: int,
    fuel: nat,
) -> bool {
    all_true(inputs_ok(comps, globals, comps[i], fuel)) && all_true(params_ok(comps, globals, comps[i], fuel))
}

/// The number of outputs of all components: a pull that ends never reads one output of
/// one component state twice, so it nests no deeper than this.
pub open spec fn output_total<C: Component>(comps: Seq<TaggedComponent<C>>) -> nat
    decreases comps.len(),
{
    if comps.len() == 0 {
        0
    } else {
        output_total(comps.drop_last()) + comps.last().inner.spec_output_count()
    }
}

/// How deep a pull may nest: the number of outputs, within the machine's word.
pub open spec fn read_fuel<C: Component>(comps: Seq<TaggedComponent<C>>) -> nat {
    if output_total(comps) > usize::MAX as nat {
        usize::MAX as nat
    } else {
        output_total(comps)
    }
}

/// Whether every component can take its next state in a tick.
pub open spec fn tick_ok<C: Component>(
    comps: Seq<TaggedComponent<C>>,
    globals: Seq<Option<StreamView>>,
) -> bool {
    forall|i: int| 0 <= i < comps.len() ==> #[trigger] step_ok(updated_through(comps, globals, i as nat, read_fuel(comps)), globals, i, read_fuel(comps))
}

/// The components after the one at position `i` has taken its next state, computed from
/// what it reads of `comps` as they stand.
pub open spec fn step<C: Component>(
    comps: Seq<TaggedComponent<C>>,
    globals: Seq<Option<StreamView>>,
    i: int,
    fuel: nat,
) -> Seq<TaggedComponent<C>> {
    let tc = comps[i];
    comps.update(
        i,
        TaggedComponent {
            inner: tc.inner.spec_update(
                eval_inputs(comps, globals, tc, fuel),
                eval_params(comps, globals, tc, fuel),
            ),
            params: tc.params,
            inputs: tc.inputs,
        },
    )
}

/// The components after those at positions `0..n` have each taken their next state, in
/// ascending order.
pub open spec fn updated_through<C: Component>(
    comps: Seq<TaggedComponent<C>>,
    globals: Seq<Option<StreamView>>,
    n: nat,
    fuel: nat,
) -> Seq<TaggedComponent<C>>
    decreases n,
{
    if n == 0 {
        comps
    } else {
        step(updated_through(comps, globals, (n - 1) as nat, fuel), globals, n - 1, fuel)
    }
}

/// The components after one whole tick.
pub open spec fn tick<C: Component>(
    comps: Seq<TaggedComponent<C>>,
    globals: Seq<Option<StreamView>>,
) -> Seq<TaggedComponent<C>> {
    updated_through(comps, globals, comps.len(), read_fuel(comps))
}


/// Issues component ids in increasing order.
struct ComponentIdGen {
    cur: usize,
}

impl ComponentIdGen {
    fn next(&mut self) -> (r: ComponentId)
        requires
            old(self).cur < usize::MAX,
        ensures
            r.0 == old(self).cur,
            final(self).cur == old(self).cur + 1,
    {
        let cur = self.cur;
        self.cur = self.cur + 1;
        ComponentId(cur)
    }
}

/// The components of a rack: each stored under its permanent id, and listed by position.
pub struct ComponentVec<C> {
    ids: ComponentIdGen,
    storage: FxHashMap<usize, TaggedComponent<C>>,
    indices: Vec<ComponentId>,
}

impl<C: Component> ComponentVec<C> {
    /// Ids are issued from `0` in order of insertion and never removed, so the component
    /// at position `i` has id `i`; each has a slot for each of its inputs and parameters.
    pub closed spec fn wf(&self) -> bool {
        &&& self.ids.cur == self.indices@.len()
        &&& forall|i: int| 0 <= i < self.indices@.len() ==> (#[trigger] self.indices@[i]).0 == i
        &&& forall|k: usize| #[trigger] self.storage@.contains_key(k) <==> (k as int)
            < self.indices@.len()
        &&& forall|k: usize| (k as int) < self.indices@.len() ==> shape_ok(
            #[trigger] self.storage@[k],
        )
    }

    /// The components, by position.
    pub closed spec fn model(&self) -> Seq<TaggedComponent<C>> {
        Seq::new(self.indices@.len(), |i: int| self.storage@[i as usize])
    }

    pub closed spec fn id_list(&self) -> Seq<ComponentId> {
        self.indices@
    }

    proof fn lemma_model_shape(&self)
        requires
            self.wf(),
        ensures
            forall|i: int| 0 <= i < self.model().len() ==> shape_ok(#[trigger] self.model()[i]),
            self.id_list().len() == self.model().len(),
            forall|i: int| 0 <= i < self.id_list().len() ==> (#[trigger] self.id_list()[i]) == ComponentId(i as usize),
    {
        assert forall|i: int| 0 <= i < self.model().len() implies shape_ok(#[trigger] self.model()[i]) by {
            assert(self.model()[i] == self.storage@[i as usize]);
        }
        assert forall|i: int| 0 <= i < self.id_list().len() implies (#[trigger] self.id_list()[i]) == ComponentId(i as usize) by {
            assert(self.indices@[i].0 == i);
        }
    }

    fn new() -> (r: Self)
        ensures
            r.wf(),
            r.model() == Seq::<TaggedComponent<C>>::empty(),
    {
        let r = ComponentVec { ids: ComponentIdGen { cur: 0 }, storage: storage_new(), indices: Vec::new() };
        assert(r.model() =~= Seq::<TaggedComponent<C>>::empty());
        r
    }

    fn len(&self) -> (r: usize)
        requires
            self.wf(),
        ensures
            r as nat == self.model().len(),
    {
        self.indices.len()
    }

    fn ids(&self) -> (r: &Vec<ComponentId>)
        ensures
            r@ == self.id_list(),
    {
        &self.indices
    }

    fn get(&self, i: usize) -> (r: &TaggedComponent<C>)
        requires
            self.wf(),
            (i as int) < self.model().len(),
        ensures
            *r == self.model()[i as int],
    {
        storage_get(&self.storage, i)
    }

    fn push(&mut self, new: TaggedComponent<C>) -> (r: ComponentId)
        requires
            old(self).wf(),
            shape_ok(new),
            old(self).model().len() < usize::MAX,
        ensures
            final(self).wf(),
            final(self).model() == old(self).model().push(new),
            final(self).id_list() == old(self).id_list().push(r),
            r.0 == old(self).model().len(),
    {
        let new_id = self.ids.next();
        storage_insert(&mut self.storage, new_id.0, new);
        self.indices.push(new_id);
        assert(self.model() =~= old(self).model().push(new));
        new_id
    }

    /// Replaces the state of the component at position `i`, keeping its wire slots.
    fn set_inner(&mut self, i: usize, inner: C)
        requires
            old(self).wf(),
            (i as int) < old(self).model().len(),
            inner.spec_input_count() == old(self).model()[i as int].inner.spec_input_count(),
            inner.spec_param_defaults().len() == old(self).model()[i as int].inner.spec_param_defaults().len(),
        ensures
            final(self).wf(),
            final(self).id_list() == old(self).id_list(),
            final(self).model() == old(self).model().update(
                i as int,
                TaggedComponent {
                    inner,
                    params: old(self).model()[i as int].params,
                    inputs: old(self).model()[i as int].inputs,
                },
            ),
    {
        let slot = storage_get_mut(&mut self.storage, i);
        slot.inner = inner;
        assert(self.model() =~= old(self).model().update(
            i as int,
            TaggedComponent {
                inner,
                params: old(self).model()[i as int].params,
                inputs: old(self).model()[i as int].inputs,
            },
        ));
    }

    /// Points input `k` of the component at position `i` at `w`.
    fn set_input(&mut self, i: usize, k: usize, w: Wire<Output>)
        requires
            old(self).wf(),
            (i as int) < old(self).model().len(),
            (k as int) < old(self).model()[i as int].inputs@.len(),
        ensures
            final(self).wf(),
            final(self).id_list() == old(self).id_list(),
            final(self).model().len() == old(self).model().len(),
            forall|j: int| 0 <= j < old(self).model().len() && j != i ==> #[trigger] final(self).model()[j] == old(self).model()[j],
            final(self).model()[i as int].inner == old(self).model()[i as int].inner,
            final(self).model()[i as int].params == old(self).model()[i as int].params,
            final(self).model()[i as int].inputs@ == old(self).model()[i as int].inputs@.update(k as int, Some(w)),
    {
        let slot = storage_get_mut(&mut self.storage, i);
        slot.inputs.set(k, Some(w));
    }

    /// Replaces parameter slot `k` of the component at position `i`.
    fn set_param_slot(&mut self, i: usize, k: usize, p: ParamValue)
        requires
            old(self).wf(),
            (i as int) < old(self).model().len(),
            (k as int) < old(self).model()[i as int].params@.len(),
        ensures
            final(self).wf(),
            final(self).id_list() == old(self).id_list(),
            final(self).model().len() == old(self).model().len(),
            forall|j: int| 0 <= j < old(self).model().len() && j != i ==> #[trigger] final(self).model()[j] == old(self).model()[j],
            final(self).model()[i as int].inner == old(self).model()[i as int].inner,
            final(self).model()[i as int].inputs == old(self).model()[i as int].inputs,
            final(self).model()[i as int].params@ == old(self).model()[i as int].params@.update(k as int, p),
    {
        let slot = storage_get_mut(&mut self.storage, i);
        slot.params.set(k, p);
    }

    /// How deep a pull may nest; see `read_fuel`.
    fn fuel(&self) -> (r: usize)
        requires
            self.wf(),
        ensures
            r as nat == read_fuel(self.model()),
    {
        let n = self.len();
        let ghost m = self.model();
        let mut total: usize = 0;
        let mut i: usize = 0;
        while i < n
            invariant
                self.wf(),
                m == self.model(),
                0 <= i <= n,
                n == m.len(),
                total as nat == read_fuel(m.take(i as int)),
            decreases n - i,
        {
            assert(m.take(i + 1).drop_last() =~= m.take(i as int));
            let c = self.get(i).inner.output_count();
            total = if total > usize::MAX - c {
                usize::MAX
            } else {
                total + c
            };
            i = i + 1;
        }
        assert(m.take(n as int) =~= m);
        total
    }

    /// What wire `w` carries this tick; see `eval_wire`. Fails where the pull meets a
    /// modulation stream that cannot be averaged.
    fn read_wire(&self, globals: &Vec<Option<Stream>>, w: Wire<Output>, fuel: usize) -> (r: Result<Option<Stream>, RackError>)
        requires
            self.wf(),
        ensures
            r is Ok <==> wire_ok(self.model(), view_inputs(globals@), w, fuel as nat),
            r matches Ok(v) ==> view_opt_stream(v) == eval_wire(self.model(), view_inputs(globals@), w, fuel as nat),
            r matches Err(e) ==> e == RackError::ModulationOutOfRange,
        decreases fuel, 0nat,
    {
        proof {
            self.lemma_model_shape();
        }
        match w.0.element {
            ElementSpecifier::Rack => {
                if w.0.io_index < globals.len() {
                    match &globals[w.0.io_index] {
                        Some(s) => Ok(Some(copy_stream(s))),
                        None => Ok(None),
                    }
                } else {
                    Ok(None)
                }
            },
            ElementSpecifier::Component { id } => {
                if fuel == 0 || id.0 >= self.len() {
                    return Ok(None);
                }
                let tc = self.get(id.0);
                if w.0.io_index >= tc.inner.output_count() {
                    return Ok(None);
                }
                let inputs = match self.read_inputs(globals, tc, fuel - 1) {
                    Ok(v) => v,
                    Err(e) => {
                        return Err(e);
                    },
                };
                let params = match self.read_params(globals, tc, fuel - 1) {
                    Ok(v) => v,
                    Err(e) => {
                        return Err(e);
                    },
                };
                Ok(Some(tc.inner.output(w.0.io_index, &inputs, &params)))
            },
        }
    }

    /// What each input of `tc` receives this tick; see `eval_inputs`.
    fn read_inputs(&self, globals: &Vec<Option<Stream>>, tc: &TaggedComponent<C>, fuel: usize) -> (r: Result<Vec<Option<Stream>>, RackError>)
        requires
            self.wf(),
        ensures
            r is Ok <==> all_true(inputs_ok(self.model(), view_inputs(globals@), *tc, fuel as nat)),
            r matches Ok(v) ==> view_inputs(v@) == eval_inputs(self.model(), view_inputs(globals@), *tc, fuel as nat),
            r matches Ok(v) ==> v@.len() == tc.inputs@.len(),
            r matches Err(e) ==> e == RackError::ModulationOutOfRange,
        decreases fuel, 1nat,
    {
        let ghost target = eval_inputs(self.model(), view_inputs(globals@), *tc, fuel as nat);
        let ghost oks = inputs_ok(self.model(), view_inputs(globals@), *tc, fuel as nat);
        let mut out: Vec<Option<Stream>> = Vec::new();
        let mut k: usize = 0;
        while k < tc.inputs.len()
            invariant
                self.wf(),
                0 <= k <= tc.inputs@.len(),
                out@.len() == k,
                target == eval_inputs(self.model(), view_inputs(globals@), *tc, fuel as nat),
                oks == inputs_ok(self.model(), view_inputs(globals@), *tc, fuel as nat),
                forall|j: int| 0 <= j < k ==> view_opt_stream(#[trigger] out@[j]) == target[j],
                forall|j: int| 0 <= j < k ==> #[trigger] oks[j],
            decreases tc.inputs@.len() - k,
        {
            let got = match tc.inputs[k] {
                Some(w) => match self.read_wire(globals, w, fuel) {
                    Ok(v) => v,
                    Err(e) => {
                        assert(!oks[k as int]);
                        return Err(e);
                    },
                },
                None => None,
            };
            out.push(got);
            k = k + 1;
        }
        assert(view_inputs(out@) =~= target);
        Ok(out)
    }

    /// The effective value of each parameter of `tc` this tick; see `eval_params`.
    fn read_params(&self, globals: &Vec<Option<Stream>>, tc: &TaggedComponent<C>, fuel: usize) -> (r: Result<Vec<Value>, RackError>)
        requires
            self.wf(),
        ensures
            r is Ok <==> all_true(params_ok(self.model(), view_inputs(globals@), *tc, fuel as nat)),
            r matches Ok(v) ==> v@ == eval_params(self.model(), view_inputs(globals@), *tc, fuel as nat),
            r matches Err(e) ==> e == RackError::ModulationOutOfRange,
        decreases fuel, 1nat,
    {
        let ghost target = eval_params(self.model(), view_inputs(globals@), *tc, fuel as nat);
        let ghost oks = params_ok(self.model(), view_inputs(globals@), *tc, fuel as nat);
        let mut out: Vec<Value> = Vec::new();
        let mut k: usize = 0;
        while k < tc.params.len()
            invariant
                self.wf(),
                0 <= k <= tc.params@.len(),
                out@.len() == k,
                target == eval_params(self.model(), view_inputs(globals@), *tc, fuel as nat),
                oks == params_ok(self.model(), view_inputs(globals@), *tc, fuel as nat),
                forall|j: int| 0 <= j < k ==> #[trigger] out@[j] == target[j],
                forall|j: int| 0 <= j < k ==> #[trigger] oks[j],
            decreases tc.params@.len() - k,
        {
            let p = tc.params[k];
            let v = match p.wire {
                Some(pw) => {
                    let amount = match self.read_wire(globals, pw.src, fuel) {
                        Ok(a) => a,
                        Err(e) => {
                            assert(!oks[k as int]);
                            return Err(e);
                        },
                    };
                    let samples: Option<Vec<Value>> = match amount {
                        Some(s) => match s.0 {
                            AnyIterInner::Analog(v) => Some(v),
                            AnyIterInner::Midi(_) => None,
                        },
                        None => None,
                    };
                    let arg: Option<&Vec<Value>> = match &samples {
                        Some(v) => {
                            if !modulation_fits(v) {
                                assert(!oks[k as int]);
                                return Err(RackError::ModulationOutOfRange);
                            }
                            Some(v)
                        },
                        None => None,
                    };
                    p.natural_value.lerp(&pw.value, arg)
                },
                None => p.natural_value,
            };
            out.push(v);
            k = k + 1;
        }
        assert(out@ =~= target);
        Ok(out)
    }
}


/// The first addressing error in wiring `src` to `dst`, if any, on a rack with components
/// `comps` and `n_outputs` outputs of its own.
pub open spec fn wire_error<C: Component>(
    comps: Seq<TaggedComponent<C>>,
    n_outputs: nat,
    src: WireSrc,
    dst: WireDst,
) -> Option<RackError> {
    let src_error = match src.0.element {
        ElementSpecifier::Component { id } => if id >= comps.len() {
            Some(RackError::NoSuchComponent)
        } else if src.0.io_index >= comps[id as int].inner.spec_output_count() {
            Some(RackError::NoSuchSlot)
        } else {
            None
        },
        ElementSpecifier::Rack => None,
    };
    if src_error.is_some() {
        src_error
    } else {
        match dst.0 {
            WireDstInner::Input(d) => match d.element {
                ElementSpecifier::Component { id } => if id >= comps.len() {
                    Some(RackError::NoSuchComponent)
                } else if d.io_index >= comps[id as int].inputs@.len() {
                    Some(RackError::NoSuchSlot)
                } else {
                    None
                },
                ElementSpecifier::Rack => if d.io_index >= n_outputs {
                    Some(RackError::NoSuchSlot)
                } else {
                    None
                },
            },
            WireDstInner::Param(_, d) => match d.element {
                ElementSpecifier::Component { id } => if id >= comps.len() {
                    Some(RackError::NoSuchComponent)
                } else if d.io_index >= comps[id as int].params@.len() {
                    Some(RackError::NoSuchSlot)
                } else {
                    None
                },
                ElementSpecifier::Rack => Some(RackError::ParamOnRack),
            },
        }
    }
}

/// `new` differs from `old` at most in slot `i`, whose state is kept.
pub open spec fn same_but<C>(old: Seq<TaggedComponent<C>>, new: Seq<TaggedComponent<C>>, i: int) -> bool {
    &&& new.len() == old.len()
    &&& forall|j: int| 0 <= j < old.len() && j != i ==> #[trigger] new[j] == old[j]
    &&& new[i].inner == old[i].inner
}

/// The graph of components: it owns every component, the wires between them and the
/// wires to its own outputs, and evaluates them tick by tick.
pub struct Rack<C, InputSpec, OutputSpec> {
    components: ComponentVec<C>,
    out_wires: Vec<Option<Wire<Output>>>,
    marker: PhantomData<(InputSpec, OutputSpec)>,
}

impl<C: Component, InputSpec: RuntimeSpecifier, OutputSpec: EnumerateValues> Rack<C, InputSpec, OutputSpec> {
    pub closed spec fn wf(&self) -> bool {
        self.components.wf()
    }

    /// The components, by position.
    pub closed spec fn model(&self) -> Seq<TaggedComponent<C>> {
        self.components.model()
    }

    /// The wire to each of the rack's outputs, by output id.
    pub closed spec fn out_wires(&self) -> Seq<Option<Wire<Output>>> {
        self.out_wires@
    }

    /// A wire start with its component position resolved to the component's id.
    pub open spec fn resolved(&self, src: WireSrc) -> Wire<Output> {
        resolve_src(src, Seq::new(self.model().len(), |i: int| ComponentId(i as usize)))
    }

    /// A rack with no components, and an unwired slot for each of its outputs.
    pub fn new() -> (r: Self)
        ensures
            r.wf(),
            r.model() == Seq::<TaggedComponent<C>>::empty(),
            r.out_wires().len() == OutputSpec::spec_count(),
            forall|k: int| 0 <= k < r.out_wires().len() ==> (#[trigger] r.out_wires()[k]).is_none(),
    {
        let n = OutputSpec::values().len();
        let mut out_wires: Vec<Option<Wire<Output>>> = Vec::new();
        let mut k: usize = 0;
        while k < n
            invariant
                0 <= k <= n,
                out_wires@.len() == k,
                forall|j: int| 0 <= j < k ==> (#[trigger] out_wires@[j]).is_none(),
            decreases n - k,
        {
            out_wires.push(None);
            k = k + 1;
        }
        Rack { components: ComponentVec::new(), out_wires, marker: PhantomData }
    }

    /// Adds `component` after the others, with every input and parameter unwired and
    /// each parameter at its default; returns its position.
    pub fn new_component(&mut self, component: C) -> (r: usize)
        requires
            old(self).wf(),
            old(self).model().len() < usize::MAX,
        ensures
            final(self).wf(),
            r as nat == old(self).model().len(),
            final(self).model().len() == old(self).model().len() + 1,
            final(self).model().take(r as int) == old(self).model(),
            final(self).model()[r as int].inner == component,
            final(self).model()[r as int].inputs@.len() == component.spec_input_count(),
            forall|k: int| 0 <= k < final(self).model()[r as int].inputs@.len() ==> (#[trigger] final(self).model()[r as int].inputs@[k]).is_none(),
            final(self).model()[r as int].params@.len() == component.spec_param_defaults().len(),
            forall|k: int| 0 <= k < final(self).model()[r as int].params@.len() ==> (#[trigger] final(self).model()[r as int].params@[k]).natural_value == component.spec_param_defaults()[k] && final(self).model()[r as int].params@[k].wire.is_none(),
            final(self).out_wires() == old(self).out_wires(),
    {
        let out = self.components.len();
        let defaults = component.param_defaults();
        let mut params: Vec<ParamValue> = Vec::new();
        let mut k: usize = 0;
        while k < defaults.len()
            invariant
                0 <= k <= defaults@.len(),
                params@.len() == k,
                forall|j: int| 0 <= j < k ==> (#[trigger] params@[j]).natural_value == defaults@[j] && params@[j].wire.is_none(),
            decreases defaults@.len() - k,
        {
            params.push(ParamValue { natural_value: defaults[k], wire: None });
            k = k + 1;
        }
        let n_inputs = component.input_count();
        let mut inputs: Vec<Option<Wire<Output>>> = Vec::new();
        let mut k: usize = 0;
        while k < n_inputs
            invariant
                0 <= k <= n_inputs,
                inputs@.len() == k,
                forall|j: int| 0 <= j < k ==> (#[trigger] inputs@[j]).is_none(),
            decreases n_inputs - k,
        {
            inputs.push(None);
            k = k + 1;
        }
        self.components.push(TaggedComponent { inner: component, params, inputs });
        assert(self.model().take(out as int) =~= old(self).model());
        out
    }

    /// Connects `src` to `dst`, replacing whatever wire `dst` had. Positions are resolved
    /// to permanent component ids now. Fails, changing nothing, on the first addressing
    /// error: a position with no component, a slot index that the element lacks, or a
    /// parameter on the rack's own boundary.
    pub fn wire(&mut self, src: WireSrc, dst: WireDst) -> (r: Result<(), RackError>)
        requires
            old(self).wf(),
        ensures
            final(self).wf(),
            r == (match wire_error(old(self).model(), old(self).out_wires().len(), src, dst) {
                Some(e) => Err(e),
                None => Ok::<(), RackError>(()),
            }),
            r is Err ==> final(self).model() == old(self).model() && final(self).out_wires() == old(self).out_wires(),
            r is Ok ==> match dst.0 {
                WireDstInner::Input(d) => match d.element {
                    ElementSpecifier::Component { id } => {
                        &&& same_but(old(self).model(), final(self).model(), id as int)
                        &&& final(self).model()[id as int].params == old(self).model()[id as int].params
                        &&& final(self).model()[id as int].inputs@ == old(self).model()[id as int].inputs@.update(d.io_index as int, Some(old(self).resolved(src)))
                        &&& final(self).out_wires() == old(self).out_wires()
                    },
                    ElementSpecifier::Rack => {
                        &&& final(self).model() == old(self).model()
                        &&& final(self).out_wires() == old(self).out_wires().update(d.io_index as int, Some(old(self).resolved(src)))
                    },
                },
                WireDstInner::Param(v, d) => match d.element {
                    ElementSpecifier::Component { id } => {
                        &&& same_but(old(self).model(), final(self).model(), id as int)
                        &&& final(self).model()[id as int].inputs == old(self).model()[id as int].inputs
                        &&& final(self).model()[id as int].params@ == old(self).model()[id as int].params@.update(d.io_index as int, ParamValue {
                            natural_value: old(self).model()[id as int].params@[d.io_index as int].natural_value,
                            wire: Some(ParamWire { src: old(self).resolved(src), value: v }),
                        })
                        &&& final(self).out_wires() == old(self).out_wires()
                    },
                    ElementSpecifier::Rack => false,
                },
            },
    {
        proof {
            self.components.lemma_model_shape();
        }
        let n = self.components.len();
        if let ElementSpecifier::Component { id } = src.0.element {
            if id >= n {
                return Err(RackError::NoSuchComponent);
            }
            if src.0.io_index >= self.components.get(id).inner.output_count() {
                return Err(RackError::NoSuchSlot);
            }
        }
        let filled_output = src.fill_id(self.components.ids());
        assert(filled_output == old(self).resolved(src)) by {
            assert(self.components.id_list() =~= Seq::new(self.model().len(), |i: int| ComponentId(i as usize)));
        }
        match dst.0 {
            WireDstInner::Input(d) => match d.element() {
                ElementSpecifier::Component { id } => {
                    if id >= n {
                        return Err(RackError::NoSuchComponent);
                    }
                    if d.io_index >= self.components.get(id).inputs.len() {
                        return Err(RackError::NoSuchSlot);
                    }
                    self.components.set_input(id, d.io_index, filled_output);
                    Ok(())
                },
                ElementSpecifier::Rack => {
                    if d.io_index >= self.out_wires.len() {
                        return Err(RackError::NoSuchSlot);
                    }
                    self.out_wires.set(d.io_index, Some(filled_output));
                    Ok(())
                },
            },
            WireDstInner::Param(val, d) => match d.element() {
                ElementSpecifier::Component { id } => {
                    if id >= n {
                        return Err(RackError::NoSuchComponent);
                    }
                    let tc = self.components.get(id);
                    if d.io_index >= tc.params.len() {
                        return Err(RackError::NoSuchSlot);
                    }
                    let natural = tc.params[d.io_index].natural_value;
                    self.components.set_param_slot(
                        id,
                        d.io_index,
                        ParamValue { natural_value: natural, wire: Some(ParamWire { value: val, src: filled_output }) },
                    );
                    Ok(())
                },
                ElementSpecifier::Rack => Err(RackError::ParamOnRack),
            },
        }
    }

    /// Sets the natural value of parameter `param` of the component at position
    /// `component`, keeping its wire. Every parameter holds a sample, so the value always
    /// has the kind of the slot.
    pub fn set_param<S: RuntimeSpecifier>(&mut self, component: usize, param: S, value: Value) -> (r: Result<(), RackError>)
        requires
            old(self).wf(),
        ensures
            final(self).wf(),
            final(self).out_wires() == old(self).out_wires(),
            component >= old(self).model().len() <==> r == Err::<(), RackError>(RackError::NoSuchComponent),
            component < old(self).model().len() && param.spec_id() >= old(self).model()[component as int].params@.len()
                <==> r == Err::<(), RackError>(RackError::NoSuchSlot),
            component < old(self).model().len() && param.spec_id() < old(self).model()[component as int].params@.len()
                <==> r is Ok,
            r is Err ==> final(self).model() == old(self).model(),
            r is Ok ==> {
                &&& same_but(old(self).model(), final(self).model(), component as int)
                &&& final(self).model()[component as int].inputs == old(self).model()[component as int].inputs
                &&& final(self).model()[component as int].params@ == old(self).model()[component as int].params@.update(param.spec_id() as int, ParamValue {
                    natural_value: value,
                    wire: old(self).model()[component as int].params@[param.spec_id() as int].wire,
                })
            },
    {
        if component >= self.components.len() {
            return Err(RackError::NoSuchComponent);
        }
        let k = param.id();
        let tc = self.components.get(component);
        if k >= tc.params.len() {
            return Err(RackError::NoSuchSlot);
        }
        let wire = tc.params[k].wire;
        self.components.set_param_slot(component, k, ParamValue { natural_value: value, wire });
        Ok(())
    }

    /// Advances every component by one tick, in ascending order of position: each takes
    /// its next state from what it reads, and that state replaces its old one before the
    /// next component is taken. A component so reads this tick's state of those below it
    /// and the previous tick's state of itself and those above it. Stops at the first
    /// component whose reads meet a modulation stream that cannot be averaged, leaving
    /// the components before it advanced.
    pub fn update(&mut self, globals: &Vec<Option<Stream>>) -> (r: Result<(), RackError>)
        requires
            old(self).wf(),
        ensures
            final(self).wf(),
            final(self).out_wires() == old(self).out_wires(),
            r is Ok <==> tick_ok(old(self).model(), view_inputs(globals@)),
            r is Ok ==> final(self).model() == tick(old(self).model(), view_inputs(globals@)),
            r matches Err(e) ==> e == RackError::ModulationOutOfRange && exists|i: int| 0 <= i < old(self).model().len() && final(self).model() == updated_through(old(self).model(), view_inputs(globals@), i as nat, read_fuel(old(self).model())) && !step_ok(final(self).model(), view_inputs(globals@), i, read_fuel(old(self).model())),
    {
        let n = self.components.len();
        let fuel = self.components.fuel();
        let ghost start = self.model();
        let ghost g = view_inputs(globals@);
        let mut i: usize = 0;
        while i < n
            invariant
                self.wf(),
                0 <= i <= n,
                n == start.len(),
                fuel as nat == read_fuel(start),
                self.model() == updated_through(start, g, i as nat, fuel as nat),
                self.out_wires() == old(self).out_wires(),
                g == view_inputs(globals@),
                start == old(self).model(),
                forall|j: int| 0 <= j < i ==> #[trigger] step_ok(updated_through(start, g, j as nat, fuel as nat), g, j, fuel as nat),
            decreases n - i,
        {
            proof {
                self.components.lemma_model_shape();
                lemma_updated_len(start, g, i as nat, fuel as nat);
            }
            let tc = self.components.get(i);
            let inputs = match self.components.read_inputs(globals, tc, fuel) {
                Ok(v) => v,
                Err(e) => {
                    assert(!step_ok(updated_through(start, g, i as nat, fuel as nat), g, i as int, fuel as nat));
                    assert(!tick_ok(start, g)) by {
                        let ii = i as int;
                        assert(updated_through(start, g, ii as nat, read_fuel(start)) == updated_through(start, g, i as nat, fuel as nat));
                        if tick_ok(start, g) {
                            assert(step_ok(updated_through(start, g, ii as nat, read_fuel(start)), g, ii, read_fuel(start)));
                        }
                    }
                    return Err(e);
                },
            };
            let params = match self.components.read_params(globals, tc, fuel) {
                Ok(v) => v,
                Err(e) => {
                    assert(!step_ok(updated_through(start, g, i as nat, fuel as nat), g, i as int, fuel as nat));
                    assert(!tick_ok(start, g)) by {
                        let ii = i as int;
                        assert(updated_through(start, g, ii as nat, read_fuel(start)) == updated_through(start, g, i as nat, fuel as nat));
                        if tick_ok(start, g) {
                            assert(step_ok(updated_through(start, g, ii as nat, read_fuel(start)), g, ii, read_fuel(start)));
                        }
                    }
                    return Err(e);
                },
            };
            let new = tc.inner.update(&inputs, &params);
            proof {
                tc.inner.lemma_update_keeps_shape(view_inputs(inputs@), params@);
            }
            self.components.set_inner(i, new);
            i = i + 1;
        }
        Ok(())
    }

    /// The stream on the rack's output `spec` this tick, pulled on demand through the
    /// wiring; absent where that output is unwired. Nothing is cached: shared upstream
    /// components are evaluated again for each reader. Fails where the pull meets a
    /// modulation stream that cannot be averaged.
    pub fn output(&self, spec: OutputSpec, globals: &Vec<Option<Stream>>) -> (r: Result<Option<Stream>, RackError>)
        requires
            self.wf(),
        ensures
            r is Ok <==> (spec.spec_id() < self.out_wires().len() ==> match self.out_wires()[spec.spec_id() as int] {
                Some(w) => wire_ok(self.model(), view_inputs(globals@), w, read_fuel(self.model())),
                None => true,
            }),
            r matches Ok(v) ==> view_opt_stream(v) == (if spec.spec_id() < self.out_wires().len() {
                match self.out_wires()[spec.spec_id() as int] {
                    Some(w) => eval_wire(self.model(), view_inputs(globals@), w, read_fuel(self.model())),
                    None => None,
                }
            } else {
                None
            }),
            r matches Err(e) ==> e == RackError::ModulationOutOfRange,
    {
        let id = spec.id();
        if id >= self.out_wires.len() {
            return Ok(None);
        }
        match self.out_wires[id] {
            Some(w) => self.components.read_wire(globals, w, self.components.fuel()),
            None => Ok(None),
        }
    }
}

proof fn lemma_updated_len<C: Component>(
    comps: Seq<TaggedComponent<C>>,
    globals: Seq<Option<StreamView>>,
    n: nat,
    fuel: nat,
)
    requires
        n <= comps.len(),
    ensures
        updated_through(comps, globals, n, fuel).len() == comps.len(),
    decreases n,
{
    if n > 0 {
        lemma_updated_len(comps, globals, (n - 1) as nat, fuel);
    }
}


proof fn lemma_step_keeps_others<C: Component>(
    comps: Seq<TaggedComponent<C>>,
    globals: Seq<Option<StreamView>>,
    n: nat,
    fuel: nat,
    j: int,
)
    requires
        0 < n <= comps.len(),
        0 <= j < comps.len(),
        j != n - 1,
    ensures
        updated_through(comps, globals, n, fuel)[j] == updated_through(comps, globals, (n - 1) as nat, fuel)[j],
{
    lemma_updated_len(comps, globals, (n - 1) as nat, fuel);
}

/// Within a tick, the component at position `i` is updated while those at positions `j`
/// below it already hold their state for this tick: what it reads of them is what they
/// are after the whole tick (a forward wire has no delay).
pub proof fn lemma_reads_below_updated<C: Component>(
    comps: Seq<TaggedComponent<C>>,
    globals: Seq<Option<StreamView>>,
    i: nat,
    j: int,
)
    requires
        0 <= j < i <= comps.len(),
    ensures
        updated_through(comps, globals, i, read_fuel(comps))[j] == tick(comps, globals)[j],
    decreases comps.len() - i,
{
    if i < comps.len() {
        lemma_reads_below_updated(comps, globals, i + 1, j);
        lemma_step_keeps_others(comps, globals, i + 1, read_fuel(comps), j);
    }
}

/// Within a tick, the component at position `i` is updated while it and those at
/// positions `j` at or above it still hold their state of the previous tick: what it
/// reads of them is their old state (a wire from there is a one-tick feedback).
pub proof fn lemma_reads_above_previous<C: Component>(
    comps: Seq<TaggedComponent<C>>,
    globals: Seq<Option<StreamView>>,
    i: nat,
    j: int,
)
    requires
        i <= j < comps.len(),
    ensures
        updated_through(comps, globals, i, read_fuel(comps))[j] == comps[j],
    decreases i,
{
    if i > 0 {
        lemma_reads_above_previous(comps, globals, (i - 1) as nat, j);
        lemma_step_keeps_others(comps, globals, i, read_fuel(comps), j);
    }
}

/// An unwired input reads as absent, and an unwired parameter reads as exactly its
/// natural value.
pub proof fn lemma_unwired_reads<C: Component>(
    comps: Seq<TaggedComponent<C>>,
    globals: Seq<Option<StreamView>>,
    tc: TaggedComponent<C>,
    fuel: nat,
    k: int,
)
    ensures
        0 <= k < tc.inputs@.len() && tc.inputs@[k].is_none() ==> eval_inputs(comps, globals, tc, fuel)[k].is_none(),
        0 <= k < tc.params@.len() && tc.params@[k].wire.is_none() ==> eval_params(comps, globals, tc, fuel)[k] == tc.params@[k].natural_value,
{
}


/// What the component at position `b` reads, during its update, through a wire from an
/// output of the component at position `a`: where `a < b`, that output as computed from
/// the state `a` has after this tick; where `a >= b`, as computed from the state `a` had
/// before it.
pub proof fn lemma_wire_read_during_update<C: Component>(
    comps: Seq<TaggedComponent<C>>,
    globals: Seq<Option<StreamView>>,
    b: nat,
    w: Wire<Output>,
)
    requires
        b < comps.len(),
        w.0.element matches ElementSpecifier::Component { id } && id.0 < comps.len()
            && w.0.io_index < comps[id.0 as int].inner.spec_output_count(),
    ensures
        ({
            let a = w.0.element->Component_id.0 as int;
            let seen = updated_through(comps, globals, b, read_fuel(comps));
            let source = if a < b {
                tick(comps, globals)[a]
            } else {
                comps[a]
            };
            eval_wire(seen, globals, w, read_fuel(comps)) == if w.0.io_index >= source.inner.spec_output_count() {
                None
            } else {
                Some(
                    source.inner.spec_output(
                        w.0.io_index as nat,
                        eval_inputs(seen, globals, source, (read_fuel(comps) - 1) as nat),
                        eval_params(seen, globals, source, (read_fuel(comps) - 1) as nat),
                    ),
                )
            }
        }),
{
    let a = w.0.element->Component_id.0 as int;
    lemma_output_total_covers(comps, a);
    lemma_updated_len(comps, globals, b, read_fuel(comps));
    if a < b {
        lemma_reads_below_updated(comps, globals, b, a);
    } else {
        lemma_reads_above_previous(comps, globals, b, a);
    }
}

proof fn lemma_output_total_covers<C: Component>(comps: Seq<TaggedComponent<C>>, a: int)
    requires
        0 <= a < comps.len(),
    ensures
        output_total(comps) >= comps[a].inner.spec_output_count(),
    decreases comps.len(),
{
    if a < comps.len() - 1 {
        lemma_output_total_covers(comps.drop_last(), a);
    }
}

/// A wire from one of the rack's own inputs reads that input as it is this tick: absent
/// where the input is absent or does not exist.
pub proof fn lemma_rack_input_reads<C: Component>(
    comps: Seq<TaggedComponent<C>>,
    globals: Seq<Option<StreamView>>,
    w: Wire<Output>,
    fuel: nat,
)
    requires
        w.0.element is Rack,
    ensures
        eval_wire(comps, globals, w, fuel) == if w.0.io_index < globals.len() {
            globals[w.0.io_index as int]
        } else {
            None
        },
        wire_ok(comps, globals, w, fuel),
{
}

} // verus!
