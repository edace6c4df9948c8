use vstd::prelude::*;

use crate::value::Value;
use std::marker::PhantomData;

verus! {

/// A context made of plain parts: a value, a function that reads inputs from it, and a
/// function that reads parameters.
pub struct QuickContext<C, InputFn, ParamFn> {
    pub ctx: C,
    pub input_fn: InputFn,
    pub param_fn: ParamFn,
}

impl<InputFn> QuickContext<(), InputFn, ()> {
    /// A context that only reads inputs, through `input_fn`.
    pub fn input(input_fn: InputFn) -> (r: Self)
        ensures
            r.input_fn == input_fn,
    {
        Self::new((), input_fn, ())
    }
}

impl<C, InputFn, ParamFn> QuickContext<C, InputFn, ParamFn> {
    pub fn new(ctx: C, input_fn: InputFn, param_fn: ParamFn) -> (r: Self)
        ensures
            r.ctx == ctx,
            r.input_fn == input_fn,
            r.param_fn == param_fn,
    {
        QuickContext { ctx, input_fn, param_fn }
    }
}

/// A source of input streams, one per input slot.
pub trait GetInput<Spec> {
    type Iter;

    /// Whether `input` may be asked for `spec`.
    spec fn input_ready(&self, spec: Spec) -> bool;

    /// What `input` may return for `spec`.
    spec fn input_gives(&self, spec: Spec, r: Option<Self::Iter>) -> bool;

    /// The stream on input `spec`; `None` where the input is not wired.
    fn input(&self, spec: Spec) -> (r: Option<Self::Iter>)
        requires
            self.input_ready(spec),
        ensures
            self.input_gives(spec, r),
    ;
}

impl<C, InputFn, ParamFn, Spec, I> GetInput<Spec> for QuickContext<C, InputFn, ParamFn> where
    InputFn: Fn(&C, Spec) -> Option<I>,
 {
    type Iter = I;

    open spec fn input_ready(&self, spec: Spec) -> bool {
        self.input_fn.requires((&self.ctx, spec))
    }

    open spec fn input_gives(&self, spec: Spec, r: Option<I>) -> bool {
        self.input_fn.ensures((&self.ctx, spec), r)
    }

    fn input(&self, spec: Spec) -> (r: Option<I>) {
        (self.input_fn)(&self.ctx, spec)
    }
}

/// Facts about the running engine.
pub trait ContextMeta {
    /// Samples per second.
    fn samples(&self) -> usize;
}

/// A handle to a file of kind `Kind`.
pub struct FileId<Kind> {
    pub index: usize,
    pub marker: PhantomData<Kind>,
}

/// Read access to files of kind `Kind`.
pub trait FileAccess<Kind> {
    type ReadFile;

    /// The file, read from its start; `None` where there is no such file.
    fn read(&self, id: FileId<Kind>) -> Option<Self::ReadFile>;
}

/// Read access to one parameter, known by its type.
pub trait GetParam<Spec> {
    fn param(&self) -> Value;
}

/// Read access to parameters by their runtime id, for components that have none: it can
/// never return.
pub trait GetRuntimeParam<Spec> {
    fn param(&self, spec: Spec) -> std::convert::Infallible;
}

} // verus!
