//! A function table served from memory: one display with a fixed list of
//! configs, for running the resolver without a native driver.
use vstd::prelude::*;
use crate::egl::{attrib_value, config_id_attribs, EglFunctions};
use crate::types::{
    released_binding, Binding, EglConfig,
    EglContext, EglDisplay, EglSurface, GLVersion, ALPHA_SIZE, BAD_ALLOC, BAD_CONFIG, BAD_CONTEXT,
    BAD_DISPLAY, BAD_MATCH, BLUE_SIZE, CONFIG_ID, CONTEXT_CLIENT_VERSION, DEPTH_SIZE, GREEN_SIZE,
    HEIGHT, NONE, NO_CONTEXT, NO_DISPLAY, NO_SURFACE, READ, RED_SIZE, STENCIL_SIZE, SUCCESS, WIDTH,
};

verus! {

/// The one display a `SoftwareEgl` serves.
pub const SOFTWARE_DISPLAY: EglDisplay = 1;

/// The channel and buffer sizes of a config, in bits.
#[derive(Clone, Copy, Debug, PartialEq, Eq, Structural)]
pub struct ConfigSizes {
    pub red: i32,
    pub green: i32,
    pub blue: i32,
    pub alpha: i32,
    pub depth: i32,
    pub stencil: i32,
}

#[derive(Clone, Copy)]
struct SurfaceRecord {
    config: EglConfig,
    width: i32,
    height: i32,
}

#[derive(Clone, Copy)]
struct ContextRecord {
    config: EglConfig,
    client_version: i32,
    version: GLVersion,
}

/// A function table over configs held in memory.
///
/// Config `i` (from 0) has handle and identifier `i + 1`; contexts and
/// surfaces are numbered from 1 in order of creation. A selection query
/// returns, in the order they were added, the configs whose sizes are at
/// least those the attribute list asks for and whose identifier is the one
/// it asks for, if any; other keys are not constraints.
pub struct SoftwareEgl {
    configs: Vec<ConfigSizes>,
    contexts: Vec<ContextRecord>,
    surfaces: Vec<SurfaceRecord>,
    current: Binding,
    error: i32,
}

/// Whether the list asks for no more than `actual` bits of `key`.
pub open spec fn at_least(l: Seq<i32>, key: i32, actual: i32) -> bool {
    attrib_value(l, key, 0) matches Some(v) ==> actual >= v
}

/// Whether the config with sizes `s` and handle `handle` meets the list.
pub open spec fn config_matches(s: ConfigSizes, handle: EglConfig, l: Seq<i32>) -> bool {
    &&& at_least(l, RED_SIZE, s.red)
    &&& at_least(l, GREEN_SIZE, s.green)
    &&& at_least(l, BLUE_SIZE, s.blue)
    &&& at_least(l, ALPHA_SIZE, s.alpha)
    &&& at_least(l, DEPTH_SIZE, s.depth)
    &&& at_least(l, STENCIL_SIZE, s.stencil)
    &&& (attrib_value(l, CONFIG_ID, 0) matches Some(v) ==> v == handle as i32)
}

/// The value of a config attribute of a config with sizes `s`.
pub open spec fn size_attr(s: ConfigSizes, handle: EglConfig, key: i32) -> Option<i32> {
    if key == RED_SIZE {
        Some(s.red)
    } else if key == GREEN_SIZE {
        Some(s.green)
    } else if key == BLUE_SIZE {
        Some(s.blue)
    } else if key == ALPHA_SIZE {
        Some(s.alpha)
    } else if key == DEPTH_SIZE {
        Some(s.depth)
    } else if key == STENCIL_SIZE {
        Some(s.stencil)
    } else if key == CONFIG_ID {
        Some(handle as i32)
    } else {
        None
    }
}

/// The handles `1..=n`.
pub open spec fn handles(n: nat) -> Seq<EglConfig> {
    Seq::new(n, |i: int| (i + 1) as usize)
}

proof fn lemma_filter_none(n: nat, pred: spec_fn(EglConfig) -> bool)
    requires
        n < usize::MAX,
        forall|i: int| 0 <= i < n ==> !pred(#[trigger] handles(n)[i]),
    ensures
        handles(n).filter(pred) == Seq::<EglConfig>::empty(),
    decreases n,
{
    if n == 0 {
        reveal(Seq::filter);
        assert(handles(n) =~= Seq::<EglConfig>::empty());
    } else {
        let m = (n - 1) as nat;
        assert(handles(n) =~= handles(m).push(n as usize));
        handles(m).lemma_filter_push(n as usize, pred);
        assert(!pred(handles(n)[m as int]));
        assert forall|i: int| 0 <= i < m implies !pred(#[trigger] handles(m)[i]) by {
            assert(handles(m)[i] == handles(n)[i]);
        }
        lemma_filter_none(m, pred);
    }
}

proof fn lemma_filter_agree(n: nat, p: spec_fn(EglConfig) -> bool, q: spec_fn(EglConfig) -> bool)
    requires
        n < usize::MAX,
        forall|i: int| 0 <= i < n ==> (p(#[trigger] handles(n)[i]) <==> q(handles(n)[i])),
    ensures
        handles(n).filter(p) == handles(n).filter(q),
    decreases n,
{
    if n == 0 {
        reveal(Seq::filter);
    } else {
        let m = (n - 1) as nat;
        assert(handles(n) =~= handles(m).push(n as usize));
        handles(m).lemma_filter_push(n as usize, p);
        handles(m).lemma_filter_push(n as usize, q);
        assert(handles(n)[m as int] == n as usize);
        assert forall|i: int| 0 <= i < m implies (p(#[trigger] handles(m)[i]) <==> q(handles(m)[i])) by {
            assert(handles(m)[i] == handles(n)[i]);
        }
        lemma_filter_agree(m, p, q);
    }
}

proof fn lemma_filter_single(n: nat, c: EglConfig, pred: spec_fn(EglConfig) -> bool)
    requires
        1 <= c <= n,
        n < usize::MAX,
        forall|i: int| 0 <= i < n ==> (pred(#[trigger] handles(n)[i]) <==> handles(n)[i] == c),
    ensures
        handles(n).filter(pred) == seq![c],
    decreases n,
{
    let m = (n - 1) as nat;
    assert(handles(n) =~= handles(m).push(n as usize));
    handles(m).lemma_filter_push(n as usize, pred);
    assert(handles(n)[m as int] == n as usize);
    if c == n {
        assert forall|i: int| 0 <= i < m implies !pred(#[trigger] handles(m)[i]) by {
            assert(handles(m)[i] == handles(n)[i]);
        }
        lemma_filter_none(m, pred);
        assert(Seq::<EglConfig>::empty().push(c) =~= seq![c]);
    } else {
        assert forall|i: int| 0 <= i < m implies (pred(#[trigger] handles(m)[i]) <==> handles(m)[i] == c) by {
            assert(handles(m)[i] == handles(n)[i]);
        }
        lemma_filter_single(m, c, pred);
    }
}

impl SoftwareEgl {
    /// The number of configs held.
    pub closed spec fn config_count(&self) -> nat {
        self.configs.len() as nat
    }

    spec fn configs_fit(&self) -> bool {
        self.configs.len() < i32::MAX
    }

    spec fn config_handle_valid(&self, c: EglConfig) -> bool {
        self.configs_fit() && 1 <= c <= self.configs.len()
    }

    spec fn context_valid(&self, x: EglContext) -> bool {
        1 <= x <= self.contexts.len() && self.config_handle_valid(self.contexts[x - 1].config)
    }

    spec fn surface_valid(&self, s: EglSurface) -> bool {
        s == NO_SURFACE || 1 <= s <= self.surfaces.len()
    }

    spec fn matches_pred(&self, l: Seq<i32>) -> spec_fn(EglConfig) -> bool {
        |h: EglConfig| config_matches(self.configs@[h - 1], h, l)
    }

    /// An empty table: no configs, nothing bound.
    pub fn new() -> (r: SoftwareEgl)
        ensures
            r.binding() == released_binding(),
            forall|l: Seq<i32>| #[trigger] r.chosen(SOFTWARE_DISPLAY, l) == Some(Seq::<EglConfig>::empty()),
    {
        let r = SoftwareEgl {
            configs: Vec::new(),
            contexts: Vec::new(),
            surfaces: Vec::new(),
            current: Binding { display: NO_DISPLAY, context: NO_CONTEXT, read_surface: NO_SURFACE, draw_surface: NO_SURFACE },
            error: SUCCESS,
        };
        assert forall|l: Seq<i32>| #[trigger] r.chosen(SOFTWARE_DISPLAY, l) == Some(Seq::<EglConfig>::empty()) by {
            reveal(Seq::filter);
            assert(handles(0) =~= Seq::<EglConfig>::empty());
        }
        r
    }

    /// The display this table serves.
    pub fn display(&self) -> (r: EglDisplay)
        ensures
            r == SOFTWARE_DISPLAY,
    {
        SOFTWARE_DISPLAY
    }

    /// Adds a config with the given sizes after those already held, and
    /// returns its handle; `None` when the table holds as many configs as an
    /// identifier can number. A selection that the new config meets returns
    /// it after those it returned before.
    pub fn add_config(&mut self, sizes: ConfigSizes) -> (r: Option<EglConfig>)
        ensures
            final(self).binding() == old(self).binding(),
            r matches Some(c) ==> {
                &&& c == old(self).config_count() + 1
                &&& forall|k: i32| #[trigger] final(self).config_attr(SOFTWARE_DISPLAY, c, k) == size_attr(sizes, c, k)
                &&& forall|d: EglDisplay, c2: EglConfig, k: i32| #[trigger] old(self).config_attr(d, c2, k) is Some
                    ==> final(self).config_attr(d, c2, k) == old(self).config_attr(d, c2, k)
                &&& forall|l: Seq<i32>| #[trigger] final(self).chosen(SOFTWARE_DISPLAY, l) == Some(
                    if config_matches(sizes, c, l) {
                        old(self).chosen(SOFTWARE_DISPLAY, l)->0.push(c)
                    } else {
                        old(self).chosen(SOFTWARE_DISPLAY, l)->0
                    },
                )
            },
            r is None ==> *final(self) == *old(self),
    {
        if self.configs.len() >= (i32::MAX - 1) as usize {
            return None;
        }
        let ghost before = *self;
        self.configs.push(sizes);
        let c = self.configs.len();
        proof {
            let n = before.configs.len() as nat;
            assert forall|l: Seq<i32>| #[trigger] self.chosen(SOFTWARE_DISPLAY, l) == Some(
                if config_matches(sizes, c, l) {
                    before.chosen(SOFTWARE_DISPLAY, l)->0.push(c)
                } else {
                    before.chosen(SOFTWARE_DISPLAY, l)->0
                },
            ) by {
                let p = self.matches_pred(l);
                let q = before.matches_pred(l);
                assert(handles(n + 1) =~= handles(n).push(c));
                handles(n).lemma_filter_push(c, p);
                assert forall|i: int| 0 <= i < n implies (p(#[trigger] handles(n)[i]) <==> q(handles(n)[i])) by {
                    assert(self.configs@[i] == before.configs@[i]);
                }
                lemma_filter_agree(n, p, q);
            }
        }
        Some(c)
    }

    fn find_attrib(l: &Vec<i32>, key: i32) -> (r: Option<i32>)
        ensures
            r == attrib_value(l@, key, 0),
    {
        let mut i: usize = 0;
        while l.len() - i > 1
            invariant
                i <= l@.len(),
                attrib_value(l@, key, 0) == attrib_value(l@, key, i as nat),
            decreases l@.len() - i,
        {
            if l[i] == NONE {
                return None;
            }
            if l[i] == key {
                return Some(l[i + 1]);
            }
            i = i + 2;
        }
        None
    }

    fn at_least_exec(l: &Vec<i32>, key: i32, actual: i32) -> (r: bool)
        ensures
            r == at_least(l@, key, actual),
    {
        match Self::find_attrib(l, key) {
            Some(v) => actual >= v,
            None => true,
        }
    }

    fn matches(&self, handle: EglConfig, l: &Vec<i32>) -> (r: bool)
        requires
            1 <= handle <= self.configs.len(),
        ensures
            r == config_matches(self.configs@[handle - 1], handle, l@),
    {
        let s = self.configs[handle - 1];
        let id_ok = match Self::find_attrib(l, CONFIG_ID) {
            Some(v) => v == handle as i32,
            None => true,
        };
        id_ok && Self::at_least_exec(l, RED_SIZE, s.red) && Self::at_least_exec(l, GREEN_SIZE, s.green)
            && Self::at_least_exec(l, BLUE_SIZE, s.blue) && Self::at_least_exec(l, ALPHA_SIZE, s.alpha)
            && Self::at_least_exec(l, DEPTH_SIZE, s.depth) && Self::at_least_exec(l, STENCIL_SIZE, s.stencil)
    }

    fn select(&self, l: &Vec<i32>) -> (r: Vec<EglConfig>)
        ensures
            r@ == handles(self.configs.len() as nat).filter(self.matches_pred(l@)),
    {
        let mut selected: Vec<EglConfig> = Vec::new();
        let mut i: usize = 0;
        while i < self.configs.len()
            invariant
                i <= self.configs.len(),
                selected@ == handles(i as nat).filter(self.matches_pred(l@)),
            decreases self.configs.len() - i,
        {
            assert(handles(i as nat + 1) =~= handles(i as nat).push((i + 1) as usize));
            proof {
                handles(i as nat).lemma_filter_push((i + 1) as usize, self.matches_pred(l@));
            }
            if self.matches(i + 1, l) {
                selected.push(i + 1);
            }
            i = i + 1;
        }
        selected
    }

    fn live_binding(&self) -> (r: Binding)
        ensures
            r == self.binding(),
    {
        if self.current.display == NO_DISPLAY || self.current.context == NO_CONTEXT {
            Binding { display: NO_DISPLAY, context: NO_CONTEXT, read_surface: NO_SURFACE, draw_surface: NO_SURFACE }
        } else {
            self.current
        }
    }
}

impl EglFunctions for SoftwareEgl {
    closed spec fn binding(&self) -> Binding {
        if self.current.display == NO_DISPLAY || self.current.context == NO_CONTEXT {
            released_binding()
        } else {
            self.current
        }
    }

    closed spec fn chosen(&self, display: EglDisplay, attrib_list: Seq<i32>) -> Option<Seq<EglConfig>> {
        if display == SOFTWARE_DISPLAY && self.configs_fit() {
            Some(handles(self.configs.len() as nat).filter(self.matches_pred(attrib_list)))
        } else {
            None
        }
    }

    closed spec fn config_attr(&self, display: EglDisplay, config: EglConfig, attribute: i32) -> Option<i32> {
        if display == SOFTWARE_DISPLAY && self.config_handle_valid(config) {
            size_attr(self.configs@[config - 1], config, attribute)
        } else {
            None
        }
    }

    closed spec fn context_attr(&self, display: EglDisplay, context: EglContext, attribute: i32) -> Option<i32> {
        if display == SOFTWARE_DISPLAY && self.context_valid(context) && attribute == CONFIG_ID {
            Some(self.contexts@[context - 1].config as i32)
        } else if display == SOFTWARE_DISPLAY && self.context_valid(context) && attribute == CONTEXT_CLIENT_VERSION {
            Some(self.contexts@[context - 1].client_version)
        } else {
            None
        }
    }

    closed spec fn last_error(&self) -> i32 {
        self.error
    }

    closed spec fn proc_address(&self, name: Seq<char>) -> usize {
        0
    }

    closed spec fn surface_attr(&self, display: EglDisplay, surface: EglSurface, attribute: i32) -> Option<i32> {
        if display == SOFTWARE_DISPLAY && 1 <= surface <= self.surfaces.len() {
            let rec = self.surfaces@[surface - 1];
            if attribute == CONFIG_ID {
                Some(rec.config as i32)
            } else if attribute == WIDTH {
                Some(rec.width)
            } else if attribute == HEIGHT {
                Some(rec.height)
            } else {
                None
            }
        } else {
            None
        }
    }

    closed spec fn context_version(&self, display: EglDisplay, context: EglContext) -> GLVersion {
        if 1 <= context <= self.contexts.len() {
            self.contexts@[context - 1].version
        } else {
            GLVersion { major: 1, minor: 0 }
        }
    }

    proof fn lemma_binding_consistent(&self) {
    }

    proof fn lemma_chosen_valid(&self, display: EglDisplay, attrib_list: Seq<i32>) {
        if self.chosen(display, attrib_list) is Some {
            let all = handles(self.configs.len() as nat);
            let pred = self.matches_pred(attrib_list);
            all.lemma_filter_len(pred);
            assert forall|i: int| 0 <= i < all.filter(pred).len() implies
                self.config_attr(display, #[trigger] all.filter(pred)[i], CONFIG_ID) is Some by {
                all.lemma_filter_contains_rev(pred, all.filter(pred)[i]);
            }
        }
    }

    proof fn lemma_chosen_meets_sizes(&self, display: EglDisplay, attrib_list: Seq<i32>, i: int, key: i32) {
        let all = handles(self.configs.len() as nat);
        let pred = self.matches_pred(attrib_list);
        let h = all.filter(pred)[i];
        all.lemma_filter_pred(pred, i);
        all.lemma_filter_contains_rev(pred, h);
        assert(pred(h));
    }

    proof fn lemma_config_attributes(&self, display: EglDisplay, config: EglConfig, attribute: i32) {
    }

    proof fn lemma_config_id_selects(&self, display: EglDisplay, config: EglConfig) {
        let l = config_id_attribs(config as i32);
        assert(attrib_value(l, CONFIG_ID, 0) == Some(config as i32));
        assert(attrib_value(l, CONFIG_ID, 2) is None);
        assert(forall|k: i32| k != CONFIG_ID ==> #[trigger] attrib_value(l, k, 0) == attrib_value(l, k, 2));
        lemma_filter_single(self.configs.len() as nat, config, self.matches_pred(l));
    }

    proof fn lemma_id_selection_reports_id(&self, display: EglDisplay, id: i32) {
        let l = config_id_attribs(id);
        assert(attrib_value(l, CONFIG_ID, 0) == Some(id));
        if self.chosen(display, l) is Some {
            let all = handles(self.configs.len() as nat);
            let pred = self.matches_pred(l);
            assert forall|i: int| 0 <= i < all.filter(pred).len() implies
                self.config_attr(display, #[trigger] all.filter(pred)[i], CONFIG_ID) == Some(id) by {
                all.lemma_filter_pred(pred, i);
                all.lemma_filter_contains_rev(pred, all.filter(pred)[i]);
            }
        }
    }

    proof fn lemma_context_config(&self, display: EglDisplay, context: EglContext) {
        let c = self.contexts@[context - 1].config;
        assert(self.config_attr(display, c, CONFIG_ID) == self.context_attr(display, context, CONFIG_ID));
    }

    fn get_current_display(&self) -> (r: EglDisplay) {
        self.live_binding().display
    }

    fn get_current_context(&self) -> (r: EglContext) {
        self.live_binding().context
    }

    fn get_current_surface(&self, readdraw: i32) -> (r: EglSurface) {
        let b = self.live_binding();
        if readdraw == READ {
            b.read_surface
        } else {
            b.draw_surface
        }
    }

    fn get_error(&self) -> (r: i32) {
        self.error
    }

    fn choose_config_count(&self, display: EglDisplay, attrib_list: &Vec<i32>) -> (r: Option<i32>) {
        if display != SOFTWARE_DISPLAY || self.configs.len() >= i32::MAX as usize {
            return None;
        }
        let selected = self.select(attrib_list);
        proof {
            handles(self.configs.len() as nat).lemma_filter_len(self.matches_pred(attrib_list@));
        }
        Some(selected.len() as i32)
    }

    fn choose_config(&self, display: EglDisplay, attrib_list: &Vec<i32>, config_size: i32) -> (r: Option<Vec<EglConfig>>) {
        if display != SOFTWARE_DISPLAY || self.configs.len() >= i32::MAX as usize {
            return None;
        }
        let selected = self.select(attrib_list);
        let mut configs: Vec<EglConfig> = Vec::new();
        let mut i: usize = 0;
        while i < selected.len() && i < config_size as usize
            invariant
                i <= selected@.len(),
                config_size >= 0,
                i <= config_size,
                configs@ == selected@.take(i as int),
            decreases selected@.len() - i,
        {
            configs.push(selected[i]);
            assert(selected@.take(i as int + 1) =~= selected@.take(i as int).push(selected@[i as int]));
            i = i + 1;
        }
        assert(selected@.take(selected@.len() as int) =~= selected@);
        Some(configs)
    }

    fn get_config_attrib(&self, display: EglDisplay, config: EglConfig, attribute: i32) -> (r: Option<i32>) {
        if display != SOFTWARE_DISPLAY || self.configs.len() >= i32::MAX as usize || config < 1
            || config > self.configs.len() {
            return None;
        }
        let s = self.configs[config - 1];
        if attribute == RED_SIZE {
            Some(s.red)
        } else if attribute == GREEN_SIZE {
            Some(s.green)
        } else if attribute == BLUE_SIZE {
            Some(s.blue)
        } else if attribute == ALPHA_SIZE {
            Some(s.alpha)
        } else if attribute == DEPTH_SIZE {
            Some(s.depth)
        } else if attribute == STENCIL_SIZE {
            Some(s.stencil)
        } else if attribute == CONFIG_ID {
            Some(config as i32)
        } else {
            None
        }
    }

    fn query_context(&self, display: EglDisplay, context: EglContext, attribute: i32) -> (r: Option<i32>) {
        if display != SOFTWARE_DISPLAY || context < 1 || context > self.contexts.len() {
            return None;
        }
        let record = self.contexts[context - 1];
        if self.configs.len() >= i32::MAX as usize || record.config < 1 || record.config > self.configs.len() {
            return None;
        }
        if attribute == CONFIG_ID {
            Some(record.config as i32)
        } else if attribute == CONTEXT_CLIENT_VERSION {
            Some(record.client_version)
        } else {
            None
        }
    }

    fn get_gl_version(&self) -> (r: GLVersion) {
        let context = self.live_binding().context;
        if 1 <= context && context <= self.contexts.len() {
            self.contexts[context - 1].version
        } else {
            GLVersion { major: 1, minor: 0 }
        }
    }

    fn make_current(&mut self, display: EglDisplay, draw: EglSurface, read: EglSurface, context: EglContext) -> (r: bool) {
        if display != SOFTWARE_DISPLAY {
            self.error = BAD_DISPLAY;
            return false;
        }
        if context == NO_CONTEXT {
            if draw != NO_SURFACE || read != NO_SURFACE {
                self.error = BAD_MATCH;
                return false;
            }
            self.current = Binding { display: NO_DISPLAY, context: NO_CONTEXT, read_surface: NO_SURFACE, draw_surface: NO_SURFACE };
            self.error = SUCCESS;
            return true;
        }
        if context > self.contexts.len() {
            self.error = BAD_CONTEXT;
            return false;
        }
        if (draw != NO_SURFACE && draw > self.surfaces.len()) || (read != NO_SURFACE && read > self.surfaces.len()) {
            self.error = BAD_MATCH;
            return false;
        }
        self.current = Binding { display, context, read_surface: read, draw_surface: draw };
        self.error = SUCCESS;
        true
    }

    fn create_context(&mut self, display: EglDisplay, config: EglConfig, share_context: EglContext, attrib_list: &Vec<i32>) -> (r: EglContext) {
        if display != SOFTWARE_DISPLAY {
            self.error = BAD_DISPLAY;
            return NO_CONTEXT;
        }
        if share_context != NO_CONTEXT {
            self.error = BAD_CONTEXT;
            return NO_CONTEXT;
        }
        if self.configs.len() >= i32::MAX as usize || config < 1 || config > self.configs.len() {
            self.error = BAD_CONFIG;
            return NO_CONTEXT;
        }
        if self.contexts.len() >= usize::MAX - 1 {
            self.error = BAD_ALLOC;
            return NO_CONTEXT;
        }
        let client_version: i32 = match Self::find_attrib(attrib_list, CONTEXT_CLIENT_VERSION) {
            Some(v) => v,
            None => 1,
        };
        let major: u8 = if 1 <= client_version && client_version <= 255 { client_version as u8 } else { 1 };
        self.contexts.push(ContextRecord { config, client_version, version: GLVersion { major, minor: 0 } });
        self.error = SUCCESS;
        self.contexts.len()
    }

    fn create_pbuffer_surface(&mut self, display: EglDisplay, config: EglConfig, attrib_list: &Vec<i32>) -> (r: EglSurface) {
        if display != SOFTWARE_DISPLAY {
            self.error = BAD_DISPLAY;
            return NO_SURFACE;
        }
        if self.configs.len() >= i32::MAX as usize || config < 1 || config > self.configs.len() {
            self.error = BAD_CONFIG;
            return NO_SURFACE;
        }
        if self.surfaces.len() >= usize::MAX - 1 {
            self.error = BAD_ALLOC;
            return NO_SURFACE;
        }
        let width = match Self::find_attrib(attrib_list, WIDTH) {
            Some(w) => w,
            None => 0,
        };
        let height = match Self::find_attrib(attrib_list, HEIGHT) {
            Some(h) => h,
            None => 0,
        };
        self.surfaces.push(SurfaceRecord { config, width, height });
        self.error = SUCCESS;
        self.surfaces.len()
    }

    fn get_proc_address(&self, name: &str) -> (r: usize) {
        0
    }
}

} // verus!
