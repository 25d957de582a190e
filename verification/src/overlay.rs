//! One watermark surface per output: what each compositor event does to its
//! state, and whether the watermark must be drawn again.

use vstd::prelude::*;

verus! {

/// The state of the watermark surface on one output.
#[derive(Clone, Copy, Debug, PartialEq, Eq, Structural)]
pub struct OverlayState {
    /// Buffer scale of the output, at least 1.
    pub scale: i32,
    /// Whether the compositor has configured the surface; nothing may be
    /// drawn before that.
    pub configured: bool,
}

/// An event of a layer surface.
#[derive(Clone, Copy, Debug, PartialEq, Eq, Structural)]
pub enum SurfaceEvent {
    /// The compositor has configured the surface (and it was acknowledged).
    Configure,
    /// The compositor has closed the surface.
    Closed,
    /// Any other event.
    Other,
}

/// What the caller must do after an event.
#[derive(Clone, Copy, Debug, PartialEq, Eq, Structural)]
pub enum OverlayAction {
    /// Render the watermark at the overlay's scale and attach it.
    Draw,
    /// End the program successfully.
    Exit,
    /// Nothing.
    Nothing,
}

/// The state of a newly created surface.
pub open spec fn initial_overlay() -> OverlayState {
    OverlayState { scale: 1, configured: false }
}

pub open spec fn valid_states(states: Seq<OverlayState>) -> bool {
    forall|i: int| 0 <= i < states.len() ==> #[trigger] states[i].scale >= 1
}

/// An output scale factor as a buffer scale: factors below 1 count as 1.
pub open spec fn effective_scale(factor: i32) -> i32 {
    if factor < 1 {
        1
    } else {
        factor
    }
}

/// The states after the output of overlay `index` reports scale `factor`,
/// and what must be done.
pub open spec fn spec_rescale(states: Seq<OverlayState>, index: int, factor: i32) -> (
    Seq<OverlayState>,
    OverlayAction,
) {
    let scale = effective_scale(factor);
    if !(0 <= index < states.len()) || states[index].scale == scale {
        (states, OverlayAction::Nothing)
    } else {
        (
            states.update(index, OverlayState { scale, configured: states[index].configured }),
            if states[index].configured {
                OverlayAction::Draw
            } else {
                OverlayAction::Nothing
            },
        )
    }
}

/// The states after overlay `index` receives a surface event, and what must
/// be done.
pub open spec fn spec_surface_event(states: Seq<OverlayState>, index: int, event: SurfaceEvent) -> (
    Seq<OverlayState>,
    OverlayAction,
) {
    match event {
        SurfaceEvent::Configure => (
            states.update(index, OverlayState { scale: states[index].scale, configured: true }),
            OverlayAction::Draw,
        ),
        SurfaceEvent::Closed => (states, OverlayAction::Exit),
        SurfaceEvent::Other => (states, OverlayAction::Nothing),
    }
}

/// The watermark surfaces, indexed in the order they were created.
pub struct Overlays {
    states: Vec<OverlayState>,
}

impl View for Overlays {
    type V = Seq<OverlayState>;

    closed spec fn view(&self) -> Seq<OverlayState> {
        self.states@
    }
}

impl Overlays {
    #[verifier::type_invariant]
    closed spec fn inv(self) -> bool {
        valid_states(self.states@)
    }

    /// No surfaces yet.
    pub fn new() -> (overlays: Self)
        ensures
            overlays@ == Seq::<OverlayState>::empty(),
    {
        Overlays { states: Vec::new() }
    }

    pub fn len(&self) -> (n: usize)
        ensures
            n == self@.len(),
    {
        self.states.len()
    }

    /// The buffer scale of overlay `index`.
    pub fn scale(&self, index: usize) -> (scale: i32)
        requires
            index < self@.len(),
        ensures
            scale == self@[index as int].scale,
            scale >= 1,
    {
        proof {
            use_type_invariant(self);
        }
        self.states[index].scale
    }

    /// Whether overlay `index` has been configured.
    pub fn is_configured(&self, index: usize) -> (configured: bool)
        requires
            index < self@.len(),
        ensures
            configured == self@[index as int].configured,
    {
        self.states[index].configured
    }

    /// Registers the surface just created for one more output; it starts
    /// unconfigured at scale 1. Returns its index.
    pub fn add(&mut self) -> (index: usize)
        requires
            old(self)@.len() < usize::MAX,
        ensures
            index == old(self)@.len(),
            final(self)@ == old(self)@.push(initial_overlay()),
    {
        proof {
            use_type_invariant(&*self);
        }
        let index = self.states.len();
        let mut states = Vec::new();
        std::mem::swap(&mut states, &mut self.states);
        states.push(OverlayState { scale: 1, configured: false });
        self.states = states;
        index
    }

    /// An event of the layer surface of overlay `index`. A configure marks
    /// it configured and asks for a draw; a close asks to exit.
    pub fn surface_event(&mut self, index: usize, event: SurfaceEvent) -> (action: OverlayAction)
        requires
            event == SurfaceEvent::Configure ==> index < old(self)@.len(),
        ensures
            (final(self)@, action) == spec_surface_event(old(self)@, index as int, event),
            valid_states(final(self)@),
    {
        proof {
            use_type_invariant(&*self);
        }
        match event {
            SurfaceEvent::Configure => {
                let scale = self.states[index].scale;
                let mut states = Vec::new();
                std::mem::swap(&mut states, &mut self.states);
                states.set(index, OverlayState { scale, configured: true });
                self.states = states;
                OverlayAction::Draw
            },
            SurfaceEvent::Closed => OverlayAction::Exit,
            SurfaceEvent::Other => OverlayAction::Nothing,
        }
    }

    /// The output of overlay `index` reports scale `factor`. The overlay
    /// takes the new scale; it is redrawn if the scale changed and it has
    /// been configured. An unknown index is ignored.
    pub fn output_scale(&mut self, index: usize, factor: i32) -> (action: OverlayAction)
        ensures
            (final(self)@, action) == spec_rescale(old(self)@, index as int, factor),
            valid_states(final(self)@),
            final(self)@.len() == old(self)@.len(),
            forall|i: int|
                0 <= i < old(self)@.len() ==> #[trigger] final(self)@[i].configured == old(
                    self,
                )@[i].configured,
    {
        proof {
            use_type_invariant(&*self);
        }
        let scale = if factor < 1 {
            1
        } else {
            factor
        };
        if index >= self.states.len() {
            return OverlayAction::Nothing;
        }
        let current = self.states[index];
        if current.scale == scale {
            return OverlayAction::Nothing;
        }
        let mut states = Vec::new();
        std::mem::swap(&mut states, &mut self.states);
        states.set(index, OverlayState { scale, configured: current.configured });
        self.states = states;
        if !current.configured {
            return OverlayAction::Nothing;
        }
        OverlayAction::Draw
    }
}

/// Size in buffer pixels of a watermark of the given logical size drawn at
/// buffer scale `scale`.
pub fn buffer_size(logical_width: i32, logical_height: i32, scale: i32) -> (size: (i32, i32))
    requires
        i32::MIN <= logical_width * scale <= i32::MAX,
        i32::MIN <= logical_height * scale <= i32::MAX,
    ensures
        size.0 == logical_width * scale,
        size.1 == logical_height * scale,
{
    (logical_width * scale, logical_height * scale)
}

/// Every state reachable by the events keeps every scale at least 1.
pub proof fn lemma_events_keep_scales_valid(
    states: Seq<OverlayState>,
    index: int,
    factor: i32,
    event: SurfaceEvent,
)
    requires
        valid_states(states),
        0 <= index < states.len(),
    ensures
        valid_states(spec_rescale(states, index, factor).0),
        valid_states(spec_surface_event(states, index, event).0),
        valid_states(states.push(initial_overlay())),
{
    assert forall|i: int| 0 <= i < states.len() + 1 implies #[trigger] states.push(
        initial_overlay(),
    )[i].scale >= 1 by {
        if i < states.len() {
            assert(states.push(initial_overlay())[i] == states[i]);
        }
    }
}

/// A second report of the same scale changes nothing and draws nothing.
pub proof fn lemma_rescale_idempotent(states: Seq<OverlayState>, index: int, factor: i32)
    ensures
        ({
            let once = spec_rescale(states, index, factor).0;
            spec_rescale(once, index, factor) == (once, OverlayAction::Nothing)
        }),
{
}

/// A rescale asks for a draw only for a configured overlay whose scale
/// actually changed, and it touches no other overlay.
pub proof fn lemma_rescale_draws_only_configured(
    states: Seq<OverlayState>,
    index: int,
    factor: i32,
    other: int,
)
    requires
        0 <= other < states.len(),
        other != index,
    ensures
        spec_rescale(states, index, factor).1 == OverlayAction::Draw ==> {
            &&& 0 <= index < states.len()
            &&& states[index].configured
            &&& states[index].scale != effective_scale(factor)
        },
        spec_rescale(states, index, factor).0[other] == states[other],
        spec_rescale(states, index, factor).0.len() == states.len(),
{
}

/// Output scale factors below 1 act as factor 1.
pub proof fn lemma_small_factors_act_as_one(states: Seq<OverlayState>, index: int, factor: i32)
    requires
        factor < 1,
    ensures
        spec_rescale(states, index, factor) == spec_rescale(states, index, 1),
{
}

/// After a configure, a later scale change of that overlay is drawn.
pub proof fn lemma_configured_overlay_redraws_on_scale_change(
    states: Seq<OverlayState>,
    index: int,
    factor: i32,
)
    requires
        0 <= index < states.len(),
        states[index].scale != effective_scale(factor),
    ensures
        ({
            let configured = spec_surface_event(states, index, SurfaceEvent::Configure).0;
            spec_rescale(configured, index, factor).1 == OverlayAction::Draw
        }),
{
}

/// A scale report never changes whether any overlay is configured, nor the
/// number of overlays; the reported overlay gets the factor as its scale
/// (at least 1) and every other overlay keeps its scale.
pub proof fn lemma_rescale_keeps_configured(states: Seq<OverlayState>, index: int, factor: i32)
    ensures
        spec_rescale(states, index, factor).0.len() == states.len(),
        forall|i: int|
            0 <= i < states.len() ==> #[trigger] spec_rescale(states, index, factor).0[i].configured
                == states[i].configured,
        forall|i: int|
            0 <= i < states.len() && i != index ==> #[trigger] spec_rescale(
                states,
                index,
                factor,
            ).0[i].scale == states[i].scale,
        0 <= index < states.len() ==> spec_rescale(states, index, factor).0[index].scale == (
        if factor >= 1 {
            factor
        } else {
            1
        }),
        !states[index].configured ==> spec_rescale(states, index, factor).1
            == OverlayAction::Nothing,
{
}

/// A surface event never changes any scale nor the number of overlays, and
/// only a configure of overlay `index` changes a configured flag.
pub proof fn lemma_surface_event_keeps_scales(
    states: Seq<OverlayState>,
    index: int,
    event: SurfaceEvent,
)
    requires
        event == SurfaceEvent::Configure ==> 0 <= index < states.len(),
    ensures
        spec_surface_event(states, index, event).0.len() == states.len(),
        forall|i: int|
            0 <= i < states.len() ==> #[trigger] spec_surface_event(states, index, event).0[i].scale
                == states[i].scale,
        forall|i: int|
            0 <= i < states.len() && (i != index || event != SurfaceEvent::Configure)
                ==> #[trigger] spec_surface_event(states, index, event).0[i].configured
                == states[i].configured,
        event == SurfaceEvent::Configure ==> spec_surface_event(states, index, event).0[index].configured,
{
}

} // verus!
