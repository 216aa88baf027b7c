//! Laws of descriptor resolution, proved over the resolver's specification.
use vstd::prelude::*;
use crate::context::{
    alpha_size, decoded_attributes, depth_size, stencil_size, descriptor_valid, first_rgb8_from, identified_config, lemma_first_rgb8_in_range,
    reports_rgb8, requested_config_attributes, resolve, version_supported, ContextDescriptor,
};
use crate::egl::{attrib_value, is_valid_config, EglFunctions};
use crate::types::{
    ContextAttributes, EglDisplay, Error, ALPHA_SIZE, BLUE_SIZE, DEPTH_SIZE, GREEN_SIZE, RED_SIZE, STENCIL_SIZE,
};

verus! {

/// A request for a compatibility profile is refused, whatever the table
/// holds: the refusal depends on no native query.
pub proof fn lemma_compatibility_profile_refused<E: EglFunctions>(
    egl: &E,
    display: EglDisplay,
    attributes: ContextAttributes,
    extra: Seq<i32>,
)
    requires
        attributes.flags.compatibility_profile,
    ensures
        resolve(egl, display, attributes, extra) == Err::<ContextDescriptor, Error>(Error::UnsupportedGLProfile),
{
}

/// A core-profile request for a GL version above 3.0 is refused with
/// `UnsupportedGLVersion`, whatever the table holds.
pub proof fn lemma_version_above_ceiling_refused<E: EglFunctions>(
    egl: &E,
    display: EglDisplay,
    attributes: ContextAttributes,
    extra: Seq<i32>,
)
    requires
        !attributes.flags.compatibility_profile,
        attributes.version.major > 3 || (attributes.version.major == 3 && attributes.version.minor > 0),
    ensures
        resolve(egl, display, attributes, extra) == Err::<ContextDescriptor, Error>(Error::UnsupportedGLVersion),
{
}

/// The config a resolved descriptor names reports exactly 8/8/8
/// red/green/blue when queried through its identifier.
pub proof fn lemma_resolved_config_is_rgb8<E: EglFunctions>(
    egl: &E,
    display: EglDisplay,
    attributes: ContextAttributes,
    extra: Seq<i32>,
    descriptor: ContextDescriptor,
)
    requires
        resolve(egl, display, attributes, extra) == Ok::<ContextDescriptor, Error>(descriptor),
    ensures
        descriptor_valid(egl, display, descriptor.egl_config_id),
        reports_rgb8(egl, display, identified_config(egl, display, descriptor.egl_config_id)),
{
    let request = requested_config_attributes(attributes, extra);
    let cs = egl.chosen(display, request)->0;
    lemma_first_rgb8_in_range(egl, display, cs, 0);
    let k = first_rgb8_from(egl, display, cs, 0)->0;
    egl.lemma_chosen_valid(display, request);
    assert(is_valid_config(egl, display, cs[k as int]));
    egl.lemma_config_id_selects(display, cs[k as int]);
}

/// Decoding the request a resolved descriptor stands for and resolving it
/// again on the same display gives the same config, when the decoded flags
/// are those of the original request.
pub proof fn lemma_round_trip<E: EglFunctions>(
    egl: &E,
    display: EglDisplay,
    attributes: ContextAttributes,
    extra: Seq<i32>,
    descriptor: ContextDescriptor,
)
    requires
        resolve(egl, display, attributes, extra) == Ok::<ContextDescriptor, Error>(descriptor),
        decoded_attributes(egl, display, descriptor).flags == attributes.flags,
    ensures
        resolve(egl, display, decoded_attributes(egl, display, descriptor), extra) matches Ok(d)
            && d.egl_config_id == descriptor.egl_config_id,
{
    assert(decoded_attributes(egl, display, descriptor) == attributes);
}

/// On a display none of whose configs reports 8/8/8 red/green/blue, every
/// request that policy accepts and whose selection query succeeds fails
/// with `NoPixelFormatFound`.
pub proof fn lemma_no_rgb8_config_no_format<E: EglFunctions>(
    egl: &E,
    display: EglDisplay,
    attributes: ContextAttributes,
    extra: Seq<i32>,
)
    requires
        !attributes.flags.compatibility_profile,
        version_supported(attributes.version),
        egl.chosen(display, requested_config_attributes(attributes, extra)) is Some,
        forall|c| is_valid_config(egl, display, c) ==> !#[trigger] reports_rgb8(egl, display, c),
    ensures
        resolve(egl, display, attributes, extra) == Err::<ContextDescriptor, Error>(Error::NoPixelFormatFound),
{
    let request = requested_config_attributes(attributes, extra);
    let cs = egl.chosen(display, request)->0;
    lemma_first_rgb8_in_range(egl, display, cs, 0);
    egl.lemma_chosen_valid(display, request);
    if first_rgb8_from(egl, display, cs, 0) is Some {
        let k = first_rgb8_from(egl, display, cs, 0)->0;
        assert(is_valid_config(egl, display, cs[k as int]));
    }
}

/// The config a resolved descriptor names has at least the alpha, depth and
/// stencil sizes the request's flags ask for, so decoding the descriptor
/// keeps every flag the request set.
pub proof fn lemma_resolved_config_meets_flags<E: EglFunctions>(
    egl: &E,
    display: EglDisplay,
    attributes: ContextAttributes,
    extra: Seq<i32>,
    descriptor: ContextDescriptor,
)
    requires
        resolve(egl, display, attributes, extra) == Ok::<ContextDescriptor, Error>(descriptor),
    ensures
        ({
            let c = identified_config(egl, display, descriptor.egl_config_id);
            &&& attributes.flags.alpha ==> egl.config_attr(display, c, ALPHA_SIZE)->0 >= 8
            &&& attributes.flags.depth ==> egl.config_attr(display, c, DEPTH_SIZE)->0 >= 24
            &&& attributes.flags.stencil ==> egl.config_attr(display, c, STENCIL_SIZE)->0 >= 8
        }),
        attributes.flags.alpha ==> decoded_attributes(egl, display, descriptor).flags.alpha,
        attributes.flags.depth ==> decoded_attributes(egl, display, descriptor).flags.depth,
        attributes.flags.stencil ==> decoded_attributes(egl, display, descriptor).flags.stencil,
{
    let request = requested_config_attributes(attributes, extra);
    let cs = egl.chosen(display, request)->0;
    lemma_first_rgb8_in_range(egl, display, cs, 0);
    let k = first_rgb8_from(egl, display, cs, 0)->0;
    egl.lemma_chosen_valid(display, request);
    assert(is_valid_config(egl, display, cs[k as int]));
    egl.lemma_config_id_selects(display, cs[k as int]);
    assert(identified_config(egl, display, descriptor.egl_config_id) == cs[k as int]);
    assert(request.len() >= 16);
    assert(request[0] == RED_SIZE && request[2] == GREEN_SIZE && request[4] == BLUE_SIZE);
    assert(request[6] == ALPHA_SIZE && request[8] == DEPTH_SIZE && request[10] == STENCIL_SIZE);
    assert(request[7] == alpha_size(attributes.flags) && request[9] == depth_size(attributes.flags));
    assert(request[11] == stencil_size(attributes.flags));
    assert(attrib_value(request, ALPHA_SIZE, 6) == Some(alpha_size(attributes.flags)));
    assert(attrib_value(request, ALPHA_SIZE, 4) == Some(alpha_size(attributes.flags)));
    assert(attrib_value(request, ALPHA_SIZE, 2) == Some(alpha_size(attributes.flags)));
    assert(attrib_value(request, ALPHA_SIZE, 0) == Some(alpha_size(attributes.flags)));
    assert(attrib_value(request, DEPTH_SIZE, 8) == Some(depth_size(attributes.flags)));
    assert(attrib_value(request, DEPTH_SIZE, 6) == Some(depth_size(attributes.flags)));
    assert(attrib_value(request, DEPTH_SIZE, 4) == Some(depth_size(attributes.flags)));
    assert(attrib_value(request, DEPTH_SIZE, 2) == Some(depth_size(attributes.flags)));
    assert(attrib_value(request, DEPTH_SIZE, 0) == Some(depth_size(attributes.flags)));
    assert(attrib_value(request, STENCIL_SIZE, 10) == Some(stencil_size(attributes.flags)));
    assert(attrib_value(request, STENCIL_SIZE, 8) == Some(stencil_size(attributes.flags)));
    assert(attrib_value(request, STENCIL_SIZE, 6) == Some(stencil_size(attributes.flags)));
    assert(attrib_value(request, STENCIL_SIZE, 4) == Some(stencil_size(attributes.flags)));
    assert(attrib_value(request, STENCIL_SIZE, 2) == Some(stencil_size(attributes.flags)));
    assert(attrib_value(request, STENCIL_SIZE, 0) == Some(stencil_size(attributes.flags)));
    egl.lemma_chosen_meets_sizes(display, request, k as int, ALPHA_SIZE);
    egl.lemma_chosen_meets_sizes(display, request, k as int, DEPTH_SIZE);
    egl.lemma_chosen_meets_sizes(display, request, k as int, STENCIL_SIZE);
}

} // verus!
