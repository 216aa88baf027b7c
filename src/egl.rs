//! The native function table: the entry points that every operation of this
//! library is expressed in, with a model of the state they observe.
use vstd::prelude::*;
use crate::types::{
    binding_after, binding_consistent, is_config_attribute, is_size_attribute, Binding, EglConfig, EglContext, EglDisplay,
    EglSurface, GLVersion, CONFIG_ID, CONTEXT_CLIENT_VERSION, DRAW, HEIGHT, NONE, NO_CONTEXT, NO_SURFACE, READ, WIDTH,
};

verus! {

/// The value given for `key` in an attribute list, read in pairs from
/// position `i` up to the `NONE` terminator.
pub open spec fn attrib_value(l: Seq<i32>, key: i32, i: nat) -> Option<i32>
    decreases l.len() - i,
{
    if i + 1 >= l.len() || l[i as int] == NONE {
        None
    } else if l[i as int] == key {
        Some(l[(i + 1) as int])
    } else {
        attrib_value(l, key, i + 2)
    }
}

/// The attribute list that selects the config with identifier `id`.
pub open spec fn config_id_attribs(id: i32) -> Seq<i32> {
    seq![CONFIG_ID, id, NONE, 0, 0, 0]
}

/// Whether `config` names a config of `display` (every valid config reports
/// its identifier).
pub open spec fn is_valid_config<E: EglFunctions>(egl: &E, display: EglDisplay, config: EglConfig) -> bool {
    egl.config_attr(display, config, CONFIG_ID) is Some
}

/// Whether `context` names a context of `display`.
pub open spec fn is_valid_context<E: EglFunctions>(egl: &E, display: EglDisplay, context: EglContext) -> bool {
    egl.context_attr(display, context, CONFIG_ID) is Some
}

/// `b` keeps every config of `a`, every context of `a` with its attributes
/// and version, and what each selection query returns.
pub open spec fn objects_kept<E: EglFunctions>(a: &E, b: &E) -> bool {
    &&& forall|d: EglDisplay, l: Seq<i32>| #[trigger] b.chosen(d, l) == a.chosen(d, l)
    &&& forall|d: EglDisplay, c: EglConfig, k: i32| #[trigger] b.config_attr(d, c, k) == a.config_attr(d, c, k)
    &&& forall|d: EglDisplay, x: EglContext, k: i32| #[trigger] a.context_attr(d, x, k) is Some
        ==> b.context_attr(d, x, k) == a.context_attr(d, x, k)
    &&& forall|d: EglDisplay, x: EglContext| #[trigger] a.context_attr(d, x, CONFIG_ID) is Some
        ==> b.context_version(d, x) == a.context_version(d, x)
}

/// The entry points of a native context API, as seen by the calling thread.
///
/// The spec functions model what the entry points observe: the thread's
/// current binding, the result of each config selection query, and the
/// attributes of configs and contexts. The proof functions are the
/// guarantees of the native API that the resolver relies on.
pub trait EglFunctions: Sized {
    /// The calling thread's current binding.
    spec fn binding(&self) -> Binding;

    /// The configs that a selection query with `attrib_list` returns on
    /// `display`, in the table's preference order; `None` when the query
    /// fails.
    spec fn chosen(&self, display: EglDisplay, attrib_list: Seq<i32>) -> Option<Seq<EglConfig>>;

    /// The value of `attribute` that `config` reports; `None` when the query
    /// fails.
    spec fn config_attr(&self, display: EglDisplay, config: EglConfig, attribute: i32) -> Option<i32>;

    /// The value of `attribute` that `context` reports; `None` when the query
    /// fails.
    spec fn context_attr(&self, display: EglDisplay, context: EglContext, attribute: i32) -> Option<i32>;

    /// The value of `attribute` that `surface` reports; `None` when the
    /// query fails.
    spec fn surface_attr(&self, display: EglDisplay, surface: EglSurface, attribute: i32) -> Option<i32>;

    /// The code of the native error pending on this thread.
    spec fn last_error(&self) -> i32;

    /// The address of the entry point called `name`; 0 when there is none.
    spec fn proc_address(&self, name: Seq<char>) -> usize;

    /// The GL version that `context` reports while it is current.
    spec fn context_version(&self, display: EglDisplay, context: EglContext) -> GLVersion;

    /// A display is current exactly when a context is.
    proof fn lemma_binding_consistent(&self)
        ensures
            binding_consistent(self.binding()),
    ;

    /// Every config that a selection query returns is valid, and no
    /// selection returns more configs than an `i32` counts.
    proof fn lemma_chosen_valid(&self, display: EglDisplay, attrib_list: Seq<i32>)
        ensures
            self.chosen(display, attrib_list) matches Some(cs) ==> {
                &&& cs.len() <= i32::MAX
                &&& forall|i: int| 0 <= i < cs.len() ==> self.config_attr(display, #[trigger] cs[i], CONFIG_ID) is Some
            },
    ;

    /// Every config that a selection query returns has at least each size
    /// the list asks for.
    proof fn lemma_chosen_meets_sizes(&self, display: EglDisplay, attrib_list: Seq<i32>, i: int, key: i32)
        requires
            self.chosen(display, attrib_list) matches Some(cs) && 0 <= i < cs.len(),
            is_size_attribute(key),
            attrib_value(attrib_list, key, 0) matches Some(v) && v >= 0,
        ensures
            self.config_attr(display, self.chosen(display, attrib_list)->0[i], key) matches Some(a)
                && a >= attrib_value(attrib_list, key, 0)->0,
    ;

    /// A valid config answers every standard attribute query.
    proof fn lemma_config_attributes(&self, display: EglDisplay, config: EglConfig, attribute: i32)
        requires
            self.config_attr(display, config, CONFIG_ID) is Some,
            is_config_attribute(attribute),
        ensures
            self.config_attr(display, config, attribute) is Some,
    ;

    /// Selecting by a valid config's identifier returns that config alone.
    proof fn lemma_config_id_selects(&self, display: EglDisplay, config: EglConfig)
        requires
            self.config_attr(display, config, CONFIG_ID) is Some,
        ensures
            self.chosen(display, config_id_attribs(self.config_attr(display, config, CONFIG_ID)->0))
                == Some(seq![config]),
    ;

    /// Every config that a selection by identifier returns reports that
    /// identifier.
    proof fn lemma_id_selection_reports_id(&self, display: EglDisplay, id: i32)
        ensures
            self.chosen(display, config_id_attribs(id)) matches Some(cs) ==> forall|i: int| 0 <= i < cs.len()
                ==> self.config_attr(display, #[trigger] cs[i], CONFIG_ID) == Some(id),
    ;

    /// A valid context was made from a valid config, whose identifier it
    /// reports.
    proof fn lemma_context_config(&self, display: EglDisplay, context: EglContext)
        requires
            self.context_attr(display, context, CONFIG_ID) is Some,
        ensures
            context != NO_CONTEXT,
            exists|c: EglConfig| #[trigger] self.config_attr(display, c, CONFIG_ID)
                == self.context_attr(display, context, CONFIG_ID),
    ;

    /// The display of the current binding.
    fn get_current_display(&self) -> (r: EglDisplay)
        ensures
            r == self.binding().display,
    ;

    /// The context of the current binding.
    fn get_current_context(&self) -> (r: EglContext)
        ensures
            r == self.binding().context,
    ;

    /// The read (`READ`) or draw (`DRAW`) surface of the current binding.
    fn get_current_surface(&self, readdraw: i32) -> (r: EglSurface)
        requires
            readdraw == READ || readdraw == DRAW,
        ensures
            readdraw == READ ==> r == self.binding().read_surface,
            readdraw == DRAW ==> r == self.binding().draw_surface,
    ;

    /// The code of the last native error on this thread.
    fn get_error(&self) -> (r: i32)
        ensures
            r == self.last_error(),
    ;

    /// The number of configs a selection query returns; `None` when it fails.
    fn choose_config_count(&self, display: EglDisplay, attrib_list: &Vec<i32>) -> (r: Option<i32>)
        ensures
            match self.chosen(display, attrib_list@) {
                None => r is None,
                Some(cs) => r == Some(cs.len() as i32),
            },
    ;

    /// The first `config_size` configs a selection query returns; `None`
    /// when it fails.
    fn choose_config(&self, display: EglDisplay, attrib_list: &Vec<i32>, config_size: i32) -> (r: Option<Vec<EglConfig>>)
        requires
            config_size >= 0,
        ensures
            match self.chosen(display, attrib_list@) {
                None => r is None,
                Some(cs) => r matches Some(v) && v@ == cs.take(
                    if config_size < cs.len() { config_size as int } else { cs.len() as int },
                ),
            },
    ;

    /// The value of a config attribute; `None` when the query fails.
    fn get_config_attrib(&self, display: EglDisplay, config: EglConfig, attribute: i32) -> (r: Option<i32>)
        ensures
            r == self.config_attr(display, config, attribute),
    ;

    /// The value of a context attribute; `None` when the query fails.
    fn query_context(&self, display: EglDisplay, context: EglContext, attribute: i32) -> (r: Option<i32>)
        ensures
            r == self.context_attr(display, context, attribute),
    ;

    /// The GL version of the current context.
    fn get_gl_version(&self) -> (r: GLVersion)
        requires
            self.binding().context != NO_CONTEXT,
        ensures
            r == self.context_version(self.binding().display, self.binding().context),
    ;

    /// Binds `context` with the given surfaces to the calling thread, or
    /// releases the thread's binding when `context` is `NO_CONTEXT`. On
    /// failure the binding stays as it was.
    fn make_current(
        &mut self,
        display: EglDisplay,
        draw: EglSurface,
        read: EglSurface,
        context: EglContext,
    ) -> (r: bool)
        ensures
            forall|d: EglDisplay, l: Seq<i32>| #[trigger] final(self).chosen(d, l) == old(self).chosen(d, l),
            forall|d: EglDisplay, c: EglConfig, k: i32|
                #[trigger] final(self).config_attr(d, c, k) == old(self).config_attr(d, c, k),
            forall|d: EglDisplay, x: EglContext, k: i32| #[trigger] old(self).context_attr(d, x, k) is Some
                ==> final(self).context_attr(d, x, k) == old(self).context_attr(d, x, k),
            forall|d: EglDisplay, x: EglContext| #[trigger] old(self).context_attr(d, x, CONFIG_ID) is Some
                ==> final(self).context_version(d, x) == old(self).context_version(d, x),
            r ==> final(self).binding() == binding_after(display, draw, read, context),
            !r ==> final(self).binding() == old(self).binding(),
    ;

    /// Creates a context from `config`; `NO_CONTEXT` on failure.
    fn create_context(
        &mut self,
        display: EglDisplay,
        config: EglConfig,
        share_context: EglContext,
        attrib_list: &Vec<i32>,
    ) -> (r: EglContext)
        ensures
            forall|d: EglDisplay, l: Seq<i32>| #[trigger] final(self).chosen(d, l) == old(self).chosen(d, l),
            forall|d: EglDisplay, c: EglConfig, k: i32|
                #[trigger] final(self).config_attr(d, c, k) == old(self).config_attr(d, c, k),
            forall|d: EglDisplay, x: EglContext, k: i32| #[trigger] old(self).context_attr(d, x, k) is Some
                ==> final(self).context_attr(d, x, k) == old(self).context_attr(d, x, k),
            forall|d: EglDisplay, x: EglContext| #[trigger] old(self).context_attr(d, x, CONFIG_ID) is Some
                ==> final(self).context_version(d, x) == old(self).context_version(d, x),
            final(self).binding() == old(self).binding(),
            r != NO_CONTEXT ==> {
                &&& old(self).context_attr(display, r, CONFIG_ID) is None
                &&& final(self).context_attr(display, r, CONFIG_ID) == old(self).config_attr(display, config, CONFIG_ID)
                &&& attrib_value(attrib_list@, CONTEXT_CLIENT_VERSION, 0) matches Some(v)
                    ==> final(self).context_attr(display, r, CONTEXT_CLIENT_VERSION) == Some(v)
            },
    ;

    /// Creates an off-screen surface for `config`, of the width and height
    /// the list gives; `NO_SURFACE` on failure.
    fn create_pbuffer_surface(
        &mut self,
        display: EglDisplay,
        config: EglConfig,
        attrib_list: &Vec<i32>,
    ) -> (r: EglSurface)
        ensures
            forall|d: EglDisplay, l: Seq<i32>| #[trigger] final(self).chosen(d, l) == old(self).chosen(d, l),
            forall|d: EglDisplay, c: EglConfig, k: i32|
                #[trigger] final(self).config_attr(d, c, k) == old(self).config_attr(d, c, k),
            forall|d: EglDisplay, x: EglContext, k: i32| #[trigger] old(self).context_attr(d, x, k) is Some
                ==> final(self).context_attr(d, x, k) == old(self).context_attr(d, x, k),
            forall|d: EglDisplay, x: EglContext| #[trigger] old(self).context_attr(d, x, CONFIG_ID) is Some
                ==> final(self).context_version(d, x) == old(self).context_version(d, x),
            final(self).binding() == old(self).binding(),
            r != NO_SURFACE ==> {
                &&& final(self).surface_attr(display, r, CONFIG_ID) == old(self).config_attr(display, config, CONFIG_ID)
                &&& attrib_value(attrib_list@, WIDTH, 0) matches Some(w) ==> final(self).surface_attr(display, r, WIDTH) == Some(w)
                &&& attrib_value(attrib_list@, HEIGHT, 0) matches Some(h) ==> final(self).surface_attr(display, r, HEIGHT) == Some(h)
            },
    ;

    /// The address of the entry point called `name`; 0 when there is none.
    fn get_proc_address(&self, name: &str) -> (r: usize)
        ensures
            r == self.proc_address(name@),
            name@.contains('\0') ==> r == 0,
    ;
}

} // verus!
