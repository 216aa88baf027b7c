//! Plain values shared by the resolver, the guard and the function tables:
//! native handles, attribute keys, capability requests and errors.
use vstd::prelude::*;

verus! {

/// Opaque handle of a connection to a graphics server.
pub type EglDisplay = usize;

/// Opaque handle of a pixel/surface format available on a display.
pub type EglConfig = usize;

/// Opaque handle of a rendering context.
pub type EglContext = usize;

/// Opaque handle of a drawable.
pub type EglSurface = usize;

/// The "no display" sentinel.
pub const NO_DISPLAY: EglDisplay = 0;

/// The "no context" sentinel.
pub const NO_CONTEXT: EglContext = 0;

/// The "no surface" sentinel.
pub const NO_SURFACE: EglSurface = 0;

/// Attribute keys and values of the native API.
pub const ALPHA_SIZE: i32 = 0x3021;
pub const BLUE_SIZE: i32 = 0x3022;
pub const GREEN_SIZE: i32 = 0x3023;
pub const RED_SIZE: i32 = 0x3024;
pub const DEPTH_SIZE: i32 = 0x3025;
pub const STENCIL_SIZE: i32 = 0x3026;
pub const CONFIG_ID: i32 = 0x3028;
pub const NONE: i32 = 0x3038;
pub const HEIGHT: i32 = 0x3056;
pub const WIDTH: i32 = 0x3057;
pub const DRAW: i32 = 0x3059;
pub const READ: i32 = 0x305A;
pub const CONTEXT_CLIENT_VERSION: i32 = 0x3098;

/// Native error codes.
pub const SUCCESS: i32 = 0x3000;
pub const NOT_INITIALIZED: i32 = 0x3001;
pub const BAD_ACCESS: i32 = 0x3002;
pub const BAD_ALLOC: i32 = 0x3003;
pub const BAD_ATTRIBUTE: i32 = 0x3004;
pub const BAD_CONFIG: i32 = 0x3005;
pub const BAD_CONTEXT: i32 = 0x3006;
pub const BAD_CURRENT_SURFACE: i32 = 0x3007;
pub const BAD_DISPLAY: i32 = 0x3008;
pub const BAD_MATCH: i32 = 0x3009;
pub const BAD_NATIVE_PIXMAP: i32 = 0x300A;
pub const BAD_NATIVE_WINDOW: i32 = 0x300B;
pub const BAD_PARAMETER: i32 = 0x300C;
pub const BAD_SURFACE: i32 = 0x300D;
pub const CONTEXT_LOST: i32 = 0x300E;

/// Whether `attribute` is one of the config attributes that every valid
/// config answers.
pub open spec fn is_config_attribute(attribute: i32) -> bool {
    ||| attribute == RED_SIZE
    ||| attribute == GREEN_SIZE
    ||| attribute == BLUE_SIZE
    ||| attribute == ALPHA_SIZE
    ||| attribute == DEPTH_SIZE
    ||| attribute == STENCIL_SIZE
    ||| attribute == CONFIG_ID
}

/// Whether `attribute` is a channel or buffer size, which a selection
/// treats as a minimum.
pub open spec fn is_size_attribute(attribute: i32) -> bool {
    ||| attribute == RED_SIZE
    ||| attribute == GREEN_SIZE
    ||| attribute == BLUE_SIZE
    ||| attribute == ALPHA_SIZE
    ||| attribute == DEPTH_SIZE
    ||| attribute == STENCIL_SIZE
}

/// An OpenGL (ES) version.
#[derive(Clone, Copy, Debug, PartialEq, Eq, Structural)]
pub struct GLVersion {
    pub major: u8,
    pub minor: u8,
}

impl GLVersion {
    pub fn new(major: u8, minor: u8) -> (r: GLVersion)
        ensures
            r.major == major,
            r.minor == minor,
    {
        GLVersion { major, minor }
    }
}

/// The capabilities a caller asks of a context.
#[derive(Clone, Copy, Debug, PartialEq, Eq, Structural)]
pub struct ContextAttributeFlags {
    pub alpha: bool,
    pub depth: bool,
    pub stencil: bool,
    pub compatibility_profile: bool,
}

impl ContextAttributeFlags {
    /// No capability asked for.
    pub fn empty() -> (r: ContextAttributeFlags)
        ensures
            !r.alpha && !r.depth && !r.stencil && !r.compatibility_profile,
    {
        ContextAttributeFlags { alpha: false, depth: false, stencil: false, compatibility_profile: false }
    }
}

/// A capability request: flags and a GL version.
#[derive(Clone, Copy, Debug, PartialEq, Eq, Structural)]
pub struct ContextAttributes {
    pub flags: ContextAttributeFlags,
    pub version: GLVersion,
}

/// A native error, classified independently of the windowing API.
#[derive(Clone, Copy, Debug, PartialEq, Eq, Structural)]
pub enum WindowingApiError {
    Failed,
    NotInitialized,
    BadAccess,
    BadAlloc,
    BadAttribute,
    BadConfig,
    BadContext,
    BadCurrentSurface,
    BadDisplay,
    BadMatch,
    BadNativePixmap,
    BadNativeWindow,
    BadParameter,
    BadSurface,
    ContextLost,
}

/// The classification of a native error code.
pub open spec fn windowing_api_error_of(code: i32) -> WindowingApiError {
    if code == NOT_INITIALIZED {
        WindowingApiError::NotInitialized
    } else if code == BAD_ACCESS {
        WindowingApiError::BadAccess
    } else if code == BAD_ALLOC {
        WindowingApiError::BadAlloc
    } else if code == BAD_ATTRIBUTE {
        WindowingApiError::BadAttribute
    } else if code == BAD_CONFIG {
        WindowingApiError::BadConfig
    } else if code == BAD_CONTEXT {
        WindowingApiError::BadContext
    } else if code == BAD_CURRENT_SURFACE {
        WindowingApiError::BadCurrentSurface
    } else if code == BAD_DISPLAY {
        WindowingApiError::BadDisplay
    } else if code == BAD_MATCH {
        WindowingApiError::BadMatch
    } else if code == BAD_NATIVE_PIXMAP {
        WindowingApiError::BadNativePixmap
    } else if code == BAD_NATIVE_WINDOW {
        WindowingApiError::BadNativeWindow
    } else if code == BAD_PARAMETER {
        WindowingApiError::BadParameter
    } else if code == BAD_SURFACE {
        WindowingApiError::BadSurface
    } else if code == CONTEXT_LOST {
        WindowingApiError::ContextLost
    } else {
        WindowingApiError::Failed
    }
}

/// Classifies a native error code.
pub fn to_windowing_api_error(code: i32) -> (r: WindowingApiError)
    ensures
        r == windowing_api_error_of(code),
{
    match code {
        NOT_INITIALIZED => WindowingApiError::NotInitialized,
        BAD_ACCESS => WindowingApiError::BadAccess,
        BAD_ALLOC => WindowingApiError::BadAlloc,
        BAD_ATTRIBUTE => WindowingApiError::BadAttribute,
        BAD_CONFIG => WindowingApiError::BadConfig,
        BAD_CONTEXT => WindowingApiError::BadContext,
        BAD_CURRENT_SURFACE => WindowingApiError::BadCurrentSurface,
        BAD_DISPLAY => WindowingApiError::BadDisplay,
        BAD_MATCH => WindowingApiError::BadMatch,
        BAD_NATIVE_PIXMAP => WindowingApiError::BadNativePixmap,
        BAD_NATIVE_WINDOW => WindowingApiError::BadNativeWindow,
        BAD_PARAMETER => WindowingApiError::BadParameter,
        BAD_SURFACE => WindowingApiError::BadSurface,
        CONTEXT_LOST => WindowingApiError::ContextLost,
        _ => WindowingApiError::Failed,
    }
}

/// The failures the resolver and the lifecycle operations report.
#[derive(Clone, Copy, Debug, PartialEq, Eq, Structural)]
pub enum Error {
    UnsupportedGLProfile,
    UnsupportedGLVersion,
    NoPixelFormatFound,
    PixelFormatSelectionFailed(WindowingApiError),
    ContextCreationFailed(WindowingApiError),
    MakeCurrentFailed(WindowingApiError),
}

/// The thread's current binding: display, context and read/draw surfaces.
#[derive(Clone, Copy, Debug, PartialEq, Eq, Structural)]
pub struct Binding {
    pub display: EglDisplay,
    pub context: EglContext,
    pub read_surface: EglSurface,
    pub draw_surface: EglSurface,
}

/// The binding of a thread on which nothing is current.
pub open spec fn released_binding() -> Binding {
    Binding { display: NO_DISPLAY, context: NO_CONTEXT, read_surface: NO_SURFACE, draw_surface: NO_SURFACE }
}

/// In a consistent binding a display is current exactly when a context is,
/// and surfaces are bound only together with a context.
pub open spec fn binding_consistent(b: Binding) -> bool {
    &&& (b.display == NO_DISPLAY <==> b.context == NO_CONTEXT)
    &&& (b.context == NO_CONTEXT ==> b == released_binding())
}

/// The binding that a successful make-current call with these arguments
/// leaves: releasing when no context is given.
pub open spec fn binding_after(
    display: EglDisplay,
    draw: EglSurface,
    read: EglSurface,
    context: EglContext,
) -> Binding {
    if context == NO_CONTEXT {
        released_binding()
    } else {
        Binding { display, context, read_surface: read, draw_surface: draw }
    }
}

} // verus!
