use surfman::context::{
    create_context, create_dummy_pbuffer, get_config_attr, get_proc_address, make_no_context_current,
    ContextDescriptor, CurrentContextGuard, NativeContext,
};
use surfman::egl::EglFunctions;
use surfman::software::{ConfigSizes, SoftwareEgl, SOFTWARE_DISPLAY};
use surfman::types::{
    to_windowing_api_error, ContextAttributeFlags, ContextAttributes, Error, GLVersion, WindowingApiError,
    BAD_DISPLAY, BAD_MATCH, BLUE_SIZE, CONFIG_ID, CONTEXT_CLIENT_VERSION, GREEN_SIZE, NO_CONTEXT, NO_DISPLAY, NO_SURFACE, RED_SIZE,
    SUCCESS,
};

fn sizes(red: i32, green: i32, blue: i32, alpha: i32, depth: i32, stencil: i32) -> ConfigSizes {
    ConfigSizes { red, green, blue, alpha, depth, stencil }
}

/// A display whose first config is a 10-bit superset, then an RGB-only
/// config, then an RGBA config with depth and stencil.
fn display_with_superset() -> SoftwareEgl {
    let mut egl = SoftwareEgl::new();
    assert_eq!(egl.add_config(sizes(10, 10, 10, 8, 24, 8)), Some(1));
    assert_eq!(egl.add_config(sizes(8, 8, 8, 0, 0, 0)), Some(2));
    assert_eq!(egl.add_config(sizes(8, 8, 8, 8, 24, 8)), Some(3));
    egl
}

fn request(alpha: bool, depth: bool, stencil: bool, major: u8, minor: u8) -> ContextAttributes {
    let mut flags = ContextAttributeFlags::empty();
    flags.alpha = alpha;
    flags.depth = depth;
    flags.stencil = stencil;
    ContextAttributes { flags, version: GLVersion::new(major, minor) }
}

#[test]
fn empty_request_selects_rgb_only_config() {
    let egl = display_with_superset();
    let d = ContextDescriptor::new(&egl, SOFTWARE_DISPLAY, &request(false, false, false, 3, 0), &[]).unwrap();
    assert_eq!(d.config_id(), 2);
    assert_eq!(d.gl_version(), GLVersion::new(3, 0));
}

#[test]
fn full_request_selects_rgba_depth_stencil_config() {
    let egl = display_with_superset();
    let d = ContextDescriptor::new(&egl, SOFTWARE_DISPLAY, &request(true, true, true, 2, 0), &[]).unwrap();
    assert_eq!(d.config_id(), 3);
    assert_eq!(d.gl_version(), GLVersion::new(2, 0));
}

#[test]
fn compatibility_profile_is_refused() {
    let egl = display_with_superset();
    let mut attributes = request(true, true, true, 2, 0);
    attributes.flags.compatibility_profile = true;
    assert_eq!(ContextDescriptor::new(&egl, SOFTWARE_DISPLAY, &attributes, &[]), Err(Error::UnsupportedGLProfile));
    // Refused before any query: even an unknown display gives the same.
    assert_eq!(ContextDescriptor::new(&egl, 42, &attributes, &[]), Err(Error::UnsupportedGLProfile));
    attributes.version = GLVersion::new(4, 5);
    assert_eq!(ContextDescriptor::new(&egl, SOFTWARE_DISPLAY, &attributes, &[]), Err(Error::UnsupportedGLProfile));
}

#[test]
fn versions_above_three_zero_are_refused() {
    let egl = display_with_superset();
    for (major, minor) in [(3u8, 1u8), (3, 2), (4, 0), (4, 6), (255, 0)] {
        let r = ContextDescriptor::new(&egl, SOFTWARE_DISPLAY, &request(false, false, false, major, minor), &[]);
        assert_eq!(r, Err(Error::UnsupportedGLVersion));
    }
    for (major, minor) in [(1u8, 0u8), (2, 0), (2, 9), (3, 0)] {
        let r = ContextDescriptor::new(&egl, SOFTWARE_DISPLAY, &request(false, false, false, major, minor), &[]);
        assert!(r.is_ok());
    }
}

#[test]
fn no_rgb8_config_means_no_pixel_format() {
    let mut egl = SoftwareEgl::new();
    egl.add_config(sizes(10, 10, 10, 2, 24, 8));
    egl.add_config(sizes(5, 6, 5, 0, 16, 0));
    for attributes in [request(false, false, false, 3, 0), request(true, true, true, 2, 0), request(false, true, false, 1, 0)] {
        assert_eq!(ContextDescriptor::new(&egl, SOFTWARE_DISPLAY, &attributes, &[]), Err(Error::NoPixelFormatFound));
    }
}

#[test]
fn empty_display_means_no_pixel_format() {
    let egl = SoftwareEgl::new();
    let r = ContextDescriptor::new(&egl, SOFTWARE_DISPLAY, &request(false, false, false, 3, 0), &[]);
    assert_eq!(r, Err(Error::NoPixelFormatFound));
}

#[test]
fn unmet_request_means_no_pixel_format() {
    let mut egl = SoftwareEgl::new();
    egl.add_config(sizes(8, 8, 8, 0, 0, 0));
    let r = ContextDescriptor::new(&egl, SOFTWARE_DISPLAY, &request(true, false, false, 3, 0), &[]);
    assert_eq!(r, Err(Error::NoPixelFormatFound));
}

#[test]
fn failed_selection_query_is_reported() {
    let egl = display_with_superset();
    let r = ContextDescriptor::new(&egl, 42, &request(false, false, false, 3, 0), &[]);
    // Nothing is pending on a fresh table, which classifies as a plain failure.
    assert_eq!(r, Err(Error::PixelFormatSelectionFailed(WindowingApiError::Failed)));
}

#[test]
fn extra_constraints_narrow_the_selection() {
    let egl = display_with_superset();
    // Asking for the identifier of config 3 among the extras.
    let d = ContextDescriptor::new(&egl, SOFTWARE_DISPLAY, &request(false, false, false, 3, 0), &[CONFIG_ID, 3]).unwrap();
    assert_eq!(d.config_id(), 3);
}

#[test]
fn selected_config_reports_exactly_rgb8() {
    let egl = display_with_superset();
    for attributes in [request(false, false, false, 3, 0), request(true, true, true, 3, 0)] {
        let d = ContextDescriptor::new(&egl, SOFTWARE_DISPLAY, &attributes, &[]).unwrap();
        let config = d.to_egl_config(&egl, SOFTWARE_DISPLAY);
        assert_eq!(get_config_attr(&egl, SOFTWARE_DISPLAY, config, RED_SIZE), 8);
        assert_eq!(get_config_attr(&egl, SOFTWARE_DISPLAY, config, GREEN_SIZE), 8);
        assert_eq!(get_config_attr(&egl, SOFTWARE_DISPLAY, config, BLUE_SIZE), 8);
        assert_ne!(config, 1);
    }
}

#[test]
fn attributes_round_trip_to_the_same_config() {
    let egl = display_with_superset();
    for attributes in [request(false, false, false, 3, 0), request(true, true, true, 2, 0)] {
        let d = ContextDescriptor::new(&egl, SOFTWARE_DISPLAY, &attributes, &[]).unwrap();
        let decoded = d.attributes(&egl, SOFTWARE_DISPLAY);
        assert_eq!(decoded, attributes);
        let again = ContextDescriptor::new(&egl, SOFTWARE_DISPLAY, &decoded, &[]).unwrap();
        assert_eq!(again.config_id(), d.config_id());
    }
}

#[test]
fn attributes_map_nonzero_sizes_to_flags() {
    let mut egl = SoftwareEgl::new();
    egl.add_config(sizes(8, 8, 8, 0, 16, 0));
    let d = ContextDescriptor::new(&egl, SOFTWARE_DISPLAY, &request(false, false, false, 1, 0), &[]).unwrap();
    let decoded = d.attributes(&egl, SOFTWARE_DISPLAY);
    assert!(!decoded.flags.alpha);
    assert!(decoded.flags.depth);
    assert!(!decoded.flags.stencil);
    assert!(!decoded.flags.compatibility_profile);
    assert_eq!(decoded.version, GLVersion::new(1, 0));
}

#[test]
fn created_context_reports_its_config() {
    let mut egl = display_with_superset();
    let d = ContextDescriptor::new(&egl, SOFTWARE_DISPLAY, &request(true, true, true, 3, 0), &[]).unwrap();
    let context = create_context(&mut egl, SOFTWARE_DISPLAY, &d).unwrap();
    assert_ne!(context, NO_CONTEXT);
    assert_eq!(egl.query_context(SOFTWARE_DISPLAY, context, CONFIG_ID), Some(3));
    // Creating a context does not bind it.
    assert_eq!(NativeContext::current(&egl).egl_context, NO_CONTEXT);
}

#[test]
fn descriptor_from_context_restores_binding() {
    let mut egl = display_with_superset();
    let d = ContextDescriptor::new(&egl, SOFTWARE_DISPLAY, &request(false, false, false, 2, 0), &[]).unwrap();
    let first = create_context(&mut egl, SOFTWARE_DISPLAY, &d).unwrap();
    let e = ContextDescriptor::new(&egl, SOFTWARE_DISPLAY, &request(true, true, true, 3, 0), &[]).unwrap();
    let second = create_context(&mut egl, SOFTWARE_DISPLAY, &e).unwrap();
    assert!(egl.make_current(SOFTWARE_DISPLAY, NO_SURFACE, NO_SURFACE, first));
    let back = ContextDescriptor::from_egl_context(&mut egl, SOFTWARE_DISPLAY, second).unwrap();
    assert_eq!(back, e);
    assert_eq!(NativeContext::current(&egl).egl_context, first);
    assert_eq!(egl.get_current_display(), SOFTWARE_DISPLAY);
}

#[test]
fn guard_restores_captured_binding() {
    let mut egl = display_with_superset();
    let d = ContextDescriptor::new(&egl, SOFTWARE_DISPLAY, &request(false, false, false, 3, 0), &[]).unwrap();
    let a = create_context(&mut egl, SOFTWARE_DISPLAY, &d).unwrap();
    let b = create_context(&mut egl, SOFTWARE_DISPLAY, &d).unwrap();
    let draw = create_dummy_pbuffer(&mut egl, SOFTWARE_DISPLAY, a).unwrap();
    let read = create_dummy_pbuffer(&mut egl, SOFTWARE_DISPLAY, a).unwrap();
    assert_ne!(draw, read);
    assert!(egl.make_current(SOFTWARE_DISPLAY, draw, read, a));
    let before = NativeContext::current(&egl);
    let guard = CurrentContextGuard::new(&egl);
    assert!(egl.make_current(SOFTWARE_DISPLAY, NO_SURFACE, NO_SURFACE, b));
    assert_eq!(NativeContext::current(&egl).egl_context, b);
    assert!(guard.release(&mut egl));
    let after = NativeContext::current(&egl);
    assert_eq!(after, before);
    assert_eq!(after, NativeContext { egl_context: a, egl_read_surface: read, egl_draw_surface: draw });
}

#[test]
fn guard_with_nothing_bound_leaves_nothing_bound() {
    let mut egl = display_with_superset();
    let d = ContextDescriptor::new(&egl, SOFTWARE_DISPLAY, &request(false, false, false, 3, 0), &[]).unwrap();
    let context = create_context(&mut egl, SOFTWARE_DISPLAY, &d).unwrap();
    let guard = CurrentContextGuard::new(&egl);
    assert!(egl.make_current(SOFTWARE_DISPLAY, NO_SURFACE, NO_SURFACE, context));
    assert!(guard.release(&mut egl));
    assert_eq!(egl.get_current_display(), NO_DISPLAY);
    assert_eq!(
        NativeContext::current(&egl),
        NativeContext { egl_context: NO_CONTEXT, egl_read_surface: NO_SURFACE, egl_draw_surface: NO_SURFACE }
    );
}

#[test]
fn guard_with_nothing_bound_and_nothing_rebound() {
    let mut egl = display_with_superset();
    let guard = CurrentContextGuard::new(&egl);
    assert!(guard.release(&mut egl));
    assert_eq!(egl.get_current_display(), NO_DISPLAY);
    assert_eq!(NativeContext::current(&egl).egl_context, NO_CONTEXT);
}

#[test]
fn descriptor_from_context_with_nothing_bound_leaves_nothing_bound() {
    let mut egl = display_with_superset();
    let d = ContextDescriptor::new(&egl, SOFTWARE_DISPLAY, &request(true, true, true, 2, 0), &[]).unwrap();
    let context = create_context(&mut egl, SOFTWARE_DISPLAY, &d).unwrap();
    let back = ContextDescriptor::from_egl_context(&mut egl, SOFTWARE_DISPLAY, context).unwrap();
    assert_eq!(back, d);
    assert_eq!(egl.get_current_display(), NO_DISPLAY);
    assert_eq!(NativeContext::current(&egl).egl_context, NO_CONTEXT);
}

#[test]
fn created_context_reports_requested_major_version() {
    let mut egl = display_with_superset();
    for major in [1u8, 2, 3] {
        let d = ContextDescriptor::new(&egl, SOFTWARE_DISPLAY, &request(false, false, false, major, 0), &[]).unwrap();
        let context = create_context(&mut egl, SOFTWARE_DISPLAY, &d).unwrap();
        assert_eq!(egl.query_context(SOFTWARE_DISPLAY, context, CONTEXT_CLIENT_VERSION), Some(major as i32));
    }
}

#[test]
fn name_with_nul_has_no_entry_point() {
    let egl = display_with_superset();
    assert_eq!(get_proc_address(&egl, "egl\0SwapBuffers"), 0);
}

#[test]
fn releasing_the_binding() {
    let mut egl = display_with_superset();
    let d = ContextDescriptor::new(&egl, SOFTWARE_DISPLAY, &request(false, false, false, 3, 0), &[]).unwrap();
    let context = create_context(&mut egl, SOFTWARE_DISPLAY, &d).unwrap();
    assert!(egl.make_current(SOFTWARE_DISPLAY, NO_SURFACE, NO_SURFACE, context));
    assert_eq!(make_no_context_current(&mut egl, SOFTWARE_DISPLAY), Ok(()));
    assert_eq!(
        NativeContext::current(&egl),
        NativeContext { egl_context: NO_CONTEXT, egl_read_surface: NO_SURFACE, egl_draw_surface: NO_SURFACE }
    );
    assert_eq!(egl.get_current_display(), NO_DISPLAY);
}

#[test]
fn releasing_on_unknown_display_fails() {
    let mut egl = display_with_superset();
    assert_eq!(
        make_no_context_current(&mut egl, 42),
        Err(Error::MakeCurrentFailed(WindowingApiError::BadDisplay))
    );
}

#[test]
fn dummy_pbuffer_is_allocated() {
    let mut egl = display_with_superset();
    let d = ContextDescriptor::new(&egl, SOFTWARE_DISPLAY, &request(false, false, false, 3, 0), &[]).unwrap();
    let context = create_context(&mut egl, SOFTWARE_DISPLAY, &d).unwrap();
    let surface = create_dummy_pbuffer(&mut egl, SOFTWARE_DISPLAY, context);
    assert!(matches!(surface, Some(s) if s != NO_SURFACE));
}

#[test]
fn missing_entry_point_is_null() {
    let egl = display_with_superset();
    assert_eq!(get_proc_address(&egl, "eglSwapBuffersWithDamageKHR"), 0);
}

#[test]
fn error_codes_are_classified() {
    assert_eq!(to_windowing_api_error(BAD_DISPLAY), WindowingApiError::BadDisplay);
    assert_eq!(to_windowing_api_error(BAD_MATCH), WindowingApiError::BadMatch);
    assert_eq!(to_windowing_api_error(0x3001), WindowingApiError::NotInitialized);
    assert_eq!(to_windowing_api_error(0x300E), WindowingApiError::ContextLost);
    assert_eq!(to_windowing_api_error(SUCCESS), WindowingApiError::Failed);
    assert_eq!(to_windowing_api_error(-1), WindowingApiError::Failed);
}
