//! Descriptor resolution, the current-context guard and the context
//! lifecycle operations, over any native function table.
use vstd::prelude::*;
use crate::egl::{attrib_value, config_id_attribs, is_valid_config, is_valid_context, objects_kept, EglFunctions};
use crate::types::{
    binding_after, binding_consistent, released_binding, to_windowing_api_error, windowing_api_error_of, Binding,
    ContextAttributeFlags, ContextAttributes, EglConfig, EglContext, EglDisplay, EglSurface,
    Error, GLVersion, ALPHA_SIZE, BLUE_SIZE, CONFIG_ID, CONTEXT_CLIENT_VERSION,
    DEPTH_SIZE, DRAW, GREEN_SIZE, HEIGHT, NONE, NO_CONTEXT, NO_DISPLAY, NO_SURFACE, READ,
    RED_SIZE, STENCIL_SIZE, WIDTH,
};

verus! {

/// Side of the off-screen surface that `create_dummy_pbuffer` allocates.
pub const DUMMY_PBUFFER_SIZE: i32 = 16;

/// Red, green and blue sizes of every selected config.
pub const RGB_CHANNEL_BIT_DEPTH: i32 = 8;

/// The context and surfaces bound on a thread.
#[derive(Clone, Copy, Debug, PartialEq, Eq, Structural)]
pub struct NativeContext {
    /// The context.
    pub egl_context: EglContext,
    /// The surface the context reads from.
    pub egl_read_surface: EglSurface,
    /// The surface the context draws to.
    pub egl_draw_surface: EglSurface,
}

/// A negotiated config, named by its identifier, and a GL version. Valid on
/// the display it was resolved on.
#[derive(Clone, Copy, Debug, PartialEq, Eq, Structural)]
pub struct ContextDescriptor {
    pub egl_config_id: i32,
    pub gl_version: GLVersion,
}

/// Whether the GL version is one the negotiation can ask for (up to 3.0).
pub open spec fn version_supported(v: GLVersion) -> bool {
    !(v.major > 3 || (v.major == 3 && v.minor > 0))
}

pub open spec fn alpha_size(flags: ContextAttributeFlags) -> i32 {
    if flags.alpha { 8 } else { 0 }
}

pub open spec fn depth_size(flags: ContextAttributeFlags) -> i32 {
    if flags.depth { 24 } else { 0 }
}

pub open spec fn stencil_size(flags: ContextAttributeFlags) -> i32 {
    if flags.stencil { 8 } else { 0 }
}

/// The required part of every selection: 8-bit red, green and blue.
pub open spec fn required_config_attributes() -> Seq<i32> {
    seq![RED_SIZE, 8, GREEN_SIZE, 8, BLUE_SIZE, 8]
}

/// The selection query for a request: the required sizes, the sizes the
/// flags ask for, the extra constraints, and a terminator.
pub open spec fn requested_config_attributes(attributes: ContextAttributes, extra: Seq<i32>) -> Seq<i32> {
    required_config_attributes() + seq![
        ALPHA_SIZE, alpha_size(attributes.flags),
        DEPTH_SIZE, depth_size(attributes.flags),
        STENCIL_SIZE, stencil_size(attributes.flags),
    ] + extra + seq![NONE, 0, 0, 0]
}

/// Whether `config` reports exactly 8/8/8 red/green/blue.
pub open spec fn reports_rgb8<E: EglFunctions>(egl: &E, display: EglDisplay, config: EglConfig) -> bool {
    &&& egl.config_attr(display, config, RED_SIZE) == Some(8i32)
    &&& egl.config_attr(display, config, GREEN_SIZE) == Some(8i32)
    &&& egl.config_attr(display, config, BLUE_SIZE) == Some(8i32)
}

/// The index of the first config from `i` on that reports 8/8/8.
pub open spec fn first_rgb8_from<E: EglFunctions>(
    egl: &E,
    display: EglDisplay,
    cs: Seq<EglConfig>,
    i: nat,
) -> Option<nat>
    decreases cs.len() - i,
{
    if i >= cs.len() {
        None
    } else if reports_rgb8(egl, display, cs[i as int]) {
        Some(i)
    } else {
        first_rgb8_from(egl, display, cs, i + 1)
    }
}

/// What resolving `attributes` on `display` gives. A failed selection query
/// reports the classification of the table's pending error.
pub open spec fn resolve<E: EglFunctions>(
    egl: &E,
    display: EglDisplay,
    attributes: ContextAttributes,
    extra: Seq<i32>,
) -> Result<ContextDescriptor, Error> {
    if attributes.flags.compatibility_profile {
        Err(Error::UnsupportedGLProfile)
    } else if !version_supported(attributes.version) {
        Err(Error::UnsupportedGLVersion)
    } else {
        match egl.chosen(display, requested_config_attributes(attributes, extra)) {
            None => Err(Error::PixelFormatSelectionFailed(windowing_api_error_of(egl.last_error()))),
            Some(cs) => match first_rgb8_from(egl, display, cs, 0) {
                None => Err(Error::NoPixelFormatFound),
                Some(i) => Ok(ContextDescriptor {
                    egl_config_id: egl.config_attr(display, cs[i as int], CONFIG_ID)->0,
                    gl_version: attributes.version,
                }),
            },
        }
    }
}

/// Whether `id` names a config of `display`.
pub open spec fn descriptor_valid<E: EglFunctions>(egl: &E, display: EglDisplay, id: i32) -> bool {
    egl.chosen(display, config_id_attribs(id)) matches Some(cs) && cs.len() > 0
}

/// The config that the identifier `id` names on `display`.
pub open spec fn identified_config<E: EglFunctions>(egl: &E, display: EglDisplay, id: i32) -> EglConfig {
    egl.chosen(display, config_id_attribs(id))->0[0]
}

/// The capability flags a config's alpha, depth and stencil sizes stand for.
pub open spec fn flags_of<E: EglFunctions>(egl: &E, display: EglDisplay, config: EglConfig) -> ContextAttributeFlags {
    ContextAttributeFlags {
        alpha: egl.config_attr(display, config, ALPHA_SIZE)->0 != 0,
        depth: egl.config_attr(display, config, DEPTH_SIZE)->0 != 0,
        stencil: egl.config_attr(display, config, STENCIL_SIZE)->0 != 0,
        compatibility_profile: false,
    }
}

/// The request that a descriptor stands for on `display`.
pub open spec fn decoded_attributes<E: EglFunctions>(
    egl: &E,
    display: EglDisplay,
    descriptor: ContextDescriptor,
) -> ContextAttributes {
    ContextAttributes {
        flags: flags_of(egl, display, identified_config(egl, display, descriptor.egl_config_id)),
        version: descriptor.gl_version,
    }
}

/// The first 8/8/8 config found from `i` on lies at or after `i`, in range.
pub proof fn lemma_first_rgb8_in_range<E: EglFunctions>(egl: &E, display: EglDisplay, cs: Seq<EglConfig>, i: nat)
    ensures
        first_rgb8_from(egl, display, cs, i) matches Some(k) ==> i <= k < cs.len() && reports_rgb8(egl, display, cs[k as int]),
    decreases cs.len() - i,
{
    if i < cs.len() && !reports_rgb8(egl, display, cs[i as int]) {
        lemma_first_rgb8_in_range(egl, display, cs, i + 1);
    }
}

impl ContextDescriptor {
    /// Resolves a capability request into a descriptor of a config of
    /// `display` that reports exactly 8/8/8 red/green/blue: the first such
    /// config, in the table's order, among those that the selection query
    /// for the request returns.
    pub fn new<E: EglFunctions>(
        egl: &E,
        egl_display: EglDisplay,
        attributes: &ContextAttributes,
        extra_config_attributes: &[i32],
    ) -> (r: Result<ContextDescriptor, Error>)
        requires
            extra_config_attributes@.len() + 16 <= usize::MAX,
        ensures
            r == resolve(egl, egl_display, *attributes, extra_config_attributes@),
            r matches Ok(d) ==> descriptor_valid(egl, egl_display, d.egl_config_id),
    {
        let flags = attributes.flags;
        if flags.compatibility_profile {
            return Err(Error::UnsupportedGLProfile);
        }
        if attributes.version.major > 3 || attributes.version.major == 3 && attributes.version.minor > 0 {
            return Err(Error::UnsupportedGLVersion);
        }
        let alpha_size: i32 = if flags.alpha { 8 } else { 0 };
        let depth_size: i32 = if flags.depth { 24 } else { 0 };
        let stencil_size: i32 = if flags.stencil { 8 } else { 0 };

        // Red, green and blue are checked again on each selected config: the
        // selection may return deeper color than asked for.
        let mut requested_config_attributes: Vec<i32> = vec![
            RED_SIZE, RGB_CHANNEL_BIT_DEPTH,
            GREEN_SIZE, RGB_CHANNEL_BIT_DEPTH,
            BLUE_SIZE, RGB_CHANNEL_BIT_DEPTH,
            ALPHA_SIZE, alpha_size,
            DEPTH_SIZE, depth_size,
            STENCIL_SIZE, stencil_size,
        ];
        let ghost head = requested_config_attributes@;
        let mut i: usize = 0;
        while i < extra_config_attributes.len()
            invariant
                i <= extra_config_attributes@.len(),
                requested_config_attributes@ == head + extra_config_attributes@.take(i as int),
            decreases extra_config_attributes@.len() - i,
        {
            requested_config_attributes.push(extra_config_attributes[i]);
            assert(extra_config_attributes@.take(i as int + 1) == extra_config_attributes@.take(i as int).push(extra_config_attributes@[i as int]));
            i = i + 1;
        }
        assert(extra_config_attributes@.take(i as int) == extra_config_attributes@);
        requested_config_attributes.push(NONE);
        requested_config_attributes.push(0);
        requested_config_attributes.push(0);
        requested_config_attributes.push(0);
        assert(requested_config_attributes@ == crate::context::requested_config_attributes(*attributes, extra_config_attributes@));
        proof {
            egl.lemma_chosen_valid(egl_display, requested_config_attributes@);
        }

        // See how many configs match.
        let config_count = match egl.choose_config_count(egl_display, &requested_config_attributes) {
            None => {
                let err = to_windowing_api_error(egl.get_error());
                return Err(Error::PixelFormatSelectionFailed(err));
            },
            Some(n) => n,
        };
        if config_count == 0 {
            return Err(Error::NoPixelFormatFound);
        }

        // Enumerate them.
        let configs = match egl.choose_config(egl_display, &requested_config_attributes, config_count) {
            None => {
                let err = to_windowing_api_error(egl.get_error());
                return Err(Error::PixelFormatSelectionFailed(err));
            },
            Some(configs) => configs,
        };
        let ghost cs = egl.chosen(egl_display, requested_config_attributes@)->0;
        assert(configs@ == cs);

        // Keep the first config that reports exactly the required sizes.
        let mut k: usize = 0;
        while k < configs.len()
            invariant
                k <= configs@.len(),
                configs@ == cs,
                !attributes.flags.compatibility_profile,
                version_supported(attributes.version),
                requested_config_attributes@
                    == crate::context::requested_config_attributes(*attributes, extra_config_attributes@),
                egl.chosen(egl_display, requested_config_attributes@) == Some(cs),
                forall|j: int| 0 <= j < cs.len() ==> is_valid_config(egl, egl_display, #[trigger] cs[j]),
                first_rgb8_from(egl, egl_display, cs, 0) == first_rgb8_from(egl, egl_display, cs, k as nat),
            decreases configs@.len() - k,
        {
            let config = configs[k];
            proof {
                egl.lemma_config_attributes(egl_display, config, RED_SIZE);
                egl.lemma_config_attributes(egl_display, config, GREEN_SIZE);
                egl.lemma_config_attributes(egl_display, config, BLUE_SIZE);
            }
            if get_config_attr(egl, egl_display, config, RED_SIZE) == RGB_CHANNEL_BIT_DEPTH
                && get_config_attr(egl, egl_display, config, GREEN_SIZE) == RGB_CHANNEL_BIT_DEPTH
                && get_config_attr(egl, egl_display, config, BLUE_SIZE) == RGB_CHANNEL_BIT_DEPTH
            {
                proof {
                    egl.lemma_config_attributes(egl_display, config, CONFIG_ID);
                    egl.lemma_config_id_selects(egl_display, config);
                    assert(reports_rgb8(egl, egl_display, cs[k as int]));
                    assert(first_rgb8_from(egl, egl_display, cs, k as nat) == Some(k as nat));
                }
                let egl_config_id = get_config_attr(egl, egl_display, config, CONFIG_ID);
                return Ok(ContextDescriptor { egl_config_id, gl_version: attributes.version });
            }
            k = k + 1;
        }
        Err(Error::NoPixelFormatFound)
    }
}

impl ContextDescriptor {
    /// The descriptor of an existing context: the identifier of the config
    /// it was made from, and the GL version it reports while current. The
    /// context is made current for the query under a guard, which then
    /// restores the thread's binding.
    pub fn from_egl_context<E: EglFunctions>(
        egl: &mut E,
        egl_display: EglDisplay,
        egl_context: EglContext,
    ) -> (r: Result<ContextDescriptor, Error>)
        requires
            is_valid_context(old(egl), egl_display, egl_context),
        ensures
            objects_kept(old(egl), final(egl)),
            r matches Ok(d) ==> {
                &&& old(egl).context_attr(egl_display, egl_context, CONFIG_ID) == Some(d.egl_config_id)
                &&& d.gl_version == old(egl).context_version(egl_display, egl_context)
                &&& final(egl).binding() == old(egl).binding()
            },
            final(egl).binding() == old(egl).binding()
                || final(egl).binding() == binding_after(egl_display, NO_SURFACE, NO_SURFACE, egl_context),
            r matches Err(e) ==> e is MakeCurrentFailed,
    {
        let egl_config_id = get_context_attr(egl, egl_display, egl_context, CONFIG_ID);
        proof {
            egl.lemma_context_config(egl_display, egl_context);
        }
        let guard = CurrentContextGuard::new(egl);
        if !egl.make_current(egl_display, NO_SURFACE, NO_SURFACE, egl_context) {
            let err = to_windowing_api_error(egl.get_error());
            let _ = guard.release(egl);
            return Err(Error::MakeCurrentFailed(err));
        }
        let gl_version = egl.get_gl_version();
        if !guard.release(egl) {
            let err = to_windowing_api_error(egl.get_error());
            return Err(Error::MakeCurrentFailed(err));
        }
        Ok(ContextDescriptor { egl_config_id, gl_version })
    }

    /// The config this descriptor names on `egl_display`.
    pub fn to_egl_config<E: EglFunctions>(&self, egl: &E, egl_display: EglDisplay) -> (r: EglConfig)
        requires
            descriptor_valid(egl, egl_display, self.egl_config_id),
        ensures
            r == identified_config(egl, egl_display, self.egl_config_id),
    {
        egl_config_from_id(egl, egl_display, self.egl_config_id)
    }

    /// The request this descriptor stands for: a flag for each of alpha,
    /// depth and stencil that its config has, and its GL version.
    pub fn attributes<E: EglFunctions>(&self, egl: &E, egl_display: EglDisplay) -> (r: ContextAttributes)
        requires
            descriptor_valid(egl, egl_display, self.egl_config_id),
        ensures
            r == decoded_attributes(egl, egl_display, *self),
    {
        let egl_config = egl_config_from_id(egl, egl_display, self.egl_config_id);
        proof {
            egl.lemma_config_attributes(egl_display, egl_config, ALPHA_SIZE);
            egl.lemma_config_attributes(egl_display, egl_config, DEPTH_SIZE);
            egl.lemma_config_attributes(egl_display, egl_config, STENCIL_SIZE);
        }
        let alpha_size = get_config_attr(egl, egl_display, egl_config, ALPHA_SIZE);
        let depth_size = get_config_attr(egl, egl_display, egl_config, DEPTH_SIZE);
        let stencil_size = get_config_attr(egl, egl_display, egl_config, STENCIL_SIZE);
        let mut flags = ContextAttributeFlags::empty();
        flags.alpha = alpha_size != 0;
        flags.depth = depth_size != 0;
        flags.stencil = stencil_size != 0;
        ContextAttributes { flags, version: self.gl_version }
    }

    /// The identifier of the negotiated config.
    pub fn config_id(&self) -> (r: i32)
        ensures
            r == self.egl_config_id,
    {
        self.egl_config_id
    }

    /// The negotiated GL version.
    pub fn gl_version(&self) -> (r: GLVersion)
        ensures
            r == self.gl_version,
    {
        self.gl_version
    }
}

impl NativeContext {
    /// The context and surfaces bound on the calling thread; `NO_CONTEXT`
    /// when none is.
    pub fn current<E: EglFunctions>(egl: &E) -> (r: NativeContext)
        ensures
            r.egl_context == egl.binding().context,
            r.egl_read_surface == egl.binding().read_surface,
            r.egl_draw_surface == egl.binding().draw_surface,
    {
        NativeContext {
            egl_context: egl.get_current_context(),
            egl_read_surface: egl.get_current_surface(READ),
            egl_draw_surface: egl.get_current_surface(DRAW),
        }
    }
}

/// The calling thread's binding, captured so that it can be restored after
/// a temporary rebind. `release` must be called on every path out of the
/// region it protects.
#[must_use]
pub struct CurrentContextGuard {
    egl_display: EglDisplay,
    old_egl_draw_surface: EglSurface,
    old_egl_read_surface: EglSurface,
    old_egl_context: EglContext,
}

impl CurrentContextGuard {
    /// The binding this guard restores.
    pub closed spec fn captured(&self) -> Binding {
        Binding {
            display: self.egl_display,
            context: self.old_egl_context,
            read_surface: self.old_egl_read_surface,
            draw_surface: self.old_egl_draw_surface,
        }
    }

    #[verifier::type_invariant]
    spec fn inv(&self) -> bool {
        binding_consistent(self.captured())
    }

    /// Captures the calling thread's binding.
    pub fn new<E: EglFunctions>(egl: &E) -> (r: CurrentContextGuard)
        ensures
            r.captured() == egl.binding(),
    {
        proof {
            egl.lemma_binding_consistent();
        }
        CurrentContextGuard {
            egl_display: egl.get_current_display(),
            old_egl_draw_surface: egl.get_current_surface(DRAW),
            old_egl_read_surface: egl.get_current_surface(READ),
            old_egl_context: egl.get_current_context(),
        }
    }

    /// Restores the captured binding. Where nothing was bound at capture,
    /// whatever is bound now is released through the display current now;
    /// no call is made against the null display. Returns whether the
    /// captured binding is in place.
    pub fn release<E: EglFunctions>(self, egl: &mut E) -> (restored: bool)
        ensures
            objects_kept(old(egl), final(egl)),
            restored ==> final(egl).binding() == self.captured(),
            !restored ==> final(egl).binding() == old(egl).binding(),
    {
        proof {
            use_type_invariant(&self);
            egl.lemma_binding_consistent();
        }
        if self.egl_display != NO_DISPLAY {
            egl.make_current(
                self.egl_display,
                self.old_egl_draw_surface,
                self.old_egl_read_surface,
                self.old_egl_context,
            )
        } else {
            let egl_display = egl.get_current_display();
            if egl_display == NO_DISPLAY {
                true
            } else {
                egl.make_current(egl_display, NO_SURFACE, NO_SURFACE, NO_CONTEXT)
            }
        }
    }
}

/// Creates a context from the config a descriptor names, asking for the
/// descriptor's major GL version and sharing with no other context.
pub fn create_context<E: EglFunctions>(
    egl: &mut E,
    egl_display: EglDisplay,
    descriptor: &ContextDescriptor,
) -> (r: Result<EglContext, Error>)
    requires
        descriptor_valid(old(egl), egl_display, descriptor.egl_config_id),
    ensures
        objects_kept(old(egl), final(egl)),
        final(egl).binding() == old(egl).binding(),
        r matches Ok(c) ==> {
            &&& c != NO_CONTEXT
            &&& !is_valid_context(old(egl), egl_display, c)
            &&& final(egl).context_attr(egl_display, c, CONFIG_ID) == Some(descriptor.egl_config_id)
            &&& final(egl).context_attr(egl_display, c, CONTEXT_CLIENT_VERSION)
                == Some(descriptor.gl_version.major as i32)
        },
        r matches Err(e) ==> e == Error::ContextCreationFailed(windowing_api_error_of(final(egl).last_error())),
{
    let egl_config = egl_config_from_id(egl, egl_display, descriptor.egl_config_id);
    proof {
        egl.lemma_id_selection_reports_id(egl_display, descriptor.egl_config_id);
    }
    // Trailing zeroes guard against implementations that read past the
    // terminator.
    let egl_context_attributes: Vec<i32> = vec![
        CONTEXT_CLIENT_VERSION, descriptor.gl_version.major as i32,
        NONE, 0,
        0, 0,
    ];
    assert(attrib_value(egl_context_attributes@, CONTEXT_CLIENT_VERSION, 0) == Some(descriptor.gl_version.major as i32));
    let egl_context = egl.create_context(egl_display, egl_config, NO_CONTEXT, &egl_context_attributes);
    if egl_context == NO_CONTEXT {
        let err = to_windowing_api_error(egl.get_error());
        return Err(Error::ContextCreationFailed(err));
    }
    Ok(egl_context)
}

/// Releases the calling thread's binding.
pub fn make_no_context_current<E: EglFunctions>(egl: &mut E, egl_display: EglDisplay) -> (r: Result<(), Error>)
    ensures
        objects_kept(old(egl), final(egl)),
        r is Ok ==> final(egl).binding() == released_binding(),
        r matches Err(e) ==> {
            &&& e == Error::MakeCurrentFailed(windowing_api_error_of(final(egl).last_error()))
            &&& final(egl).binding() == old(egl).binding()
        },
{
    if !egl.make_current(egl_display, NO_SURFACE, NO_SURFACE, NO_CONTEXT) {
        let err = to_windowing_api_error(egl.get_error());
        return Err(Error::MakeCurrentFailed(err));
    }
    Ok(())
}

/// The address of an optional entry point; 0 when the table has none, or
/// when the name holds a NUL character and so names no entry point.
pub fn get_proc_address<E: EglFunctions>(egl: &E, symbol_name: &str) -> (r: usize)
    ensures
        r == egl.proc_address(symbol_name@),
        symbol_name@.contains('\0') ==> r == 0,
{
    egl.get_proc_address(symbol_name)
}

/// Creates a 16x16 off-screen surface for the config a context was made
/// from, for backends that need some surface bound; `None` when the
/// allocation fails.
pub fn create_dummy_pbuffer<E: EglFunctions>(
    egl: &mut E,
    egl_display: EglDisplay,
    egl_context: EglContext,
) -> (r: Option<EglSurface>)
    requires
        is_valid_context(old(egl), egl_display, egl_context),
    ensures
        objects_kept(old(egl), final(egl)),
        final(egl).binding() == old(egl).binding(),
        r matches Some(s) ==> {
            &&& s != NO_SURFACE
            &&& final(egl).surface_attr(egl_display, s, CONFIG_ID) == old(egl).context_attr(egl_display, egl_context, CONFIG_ID)
            &&& final(egl).surface_attr(egl_display, s, WIDTH) == Some(DUMMY_PBUFFER_SIZE)
            &&& final(egl).surface_attr(egl_display, s, HEIGHT) == Some(DUMMY_PBUFFER_SIZE)
        },
{
    let egl_config_id = get_context_attr(egl, egl_display, egl_context, CONFIG_ID);
    proof {
        egl.lemma_context_config(egl_display, egl_context);
        let c = choose|c: EglConfig| #[trigger] egl.config_attr(egl_display, c, CONFIG_ID)
            == egl.context_attr(egl_display, egl_context, CONFIG_ID);
        egl.lemma_config_id_selects(egl_display, c);
    }
    let egl_config = egl_config_from_id(egl, egl_display, egl_config_id);
    let pbuffer_attributes: Vec<i32> = vec![
        WIDTH, DUMMY_PBUFFER_SIZE,
        HEIGHT, DUMMY_PBUFFER_SIZE,
        NONE, 0,
        0, 0,
    ];
    proof {
        egl.lemma_id_selection_reports_id(egl_display, egl_config_id);
        assert(attrib_value(pbuffer_attributes@, WIDTH, 0) == Some(DUMMY_PBUFFER_SIZE));
        assert(attrib_value(pbuffer_attributes@, HEIGHT, 2) == Some(DUMMY_PBUFFER_SIZE));
        assert(attrib_value(pbuffer_attributes@, HEIGHT, 0) == Some(DUMMY_PBUFFER_SIZE));
    }
    let pbuffer = egl.create_pbuffer_surface(egl_display, egl_config, &pbuffer_attributes);
    if pbuffer == NO_SURFACE {
        None
    } else {
        Some(pbuffer)
    }
}

/// Reads a config attribute that the config is known to answer.
pub fn get_config_attr<E: EglFunctions>(egl: &E, display: EglDisplay, config: EglConfig, attribute: i32) -> (r: i32)
    requires
        egl.config_attr(display, config, attribute) is Some,
    ensures
        egl.config_attr(display, config, attribute) == Some(r),
{
    match egl.get_config_attrib(display, config, attribute) {
        Some(value) => value,
        None => 0,
    }
}

/// Reads a context attribute that the context is known to answer.
pub fn get_context_attr<E: EglFunctions>(egl: &E, display: EglDisplay, context: EglContext, attribute: i32) -> (r: i32)
    requires
        egl.context_attr(display, context, attribute) is Some,
    ensures
        egl.context_attr(display, context, attribute) == Some(r),
{
    match egl.query_context(display, context, attribute) {
        Some(value) => value,
        None => 0,
    }
}

/// Resolves a config identifier to the config it names on `display`.
pub fn egl_config_from_id<E: EglFunctions>(egl: &E, display: EglDisplay, egl_config_id: i32) -> (r: EglConfig)
    requires
        descriptor_valid(egl, display, egl_config_id),
    ensures
        r == identified_config(egl, display, egl_config_id),
        is_valid_config(egl, display, r),
{
    let config_attributes: Vec<i32> = vec![CONFIG_ID, egl_config_id, NONE, 0, 0, 0];
    assert(config_attributes@ == config_id_attribs(egl_config_id));
    proof {
        egl.lemma_chosen_valid(display, config_attributes@);
    }
    match egl.choose_config(display, &config_attributes, 1) {
        Some(configs) => {
            assert(configs@[0] == identified_config(egl, display, egl_config_id));
            configs[0]
        },
        None => 0,
    }
}

} // verus!
