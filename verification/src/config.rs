//! The user's settings and the order in which selection capture methods run.
use vstd::prelude::*;
use vstd::string::*;

verus! {

/// A way of reading the selected text. Methods run in the order that
/// `AppConfig::capture_methods` lists them.
#[derive(Debug, Clone, Copy, PartialEq, Eq, Structural)]
pub enum CaptureMethod {
    /// Ask the focused element through UI Automation.
    Uia,
    /// Copy the selection through the clipboard.
    Clipboard,
}

/// The user's settings.
#[derive(Debug, Clone)]
pub struct AppConfig {
    pub hotkey: String,
    pub autostart: bool,
    pub tts_voice: Option<String>,
    pub uia_enabled: bool,
    pub clipboard_enabled: bool,
    /// Methods run in this order, each gated by its `*_enabled` flag.
    pub capture_methods: Vec<CaptureMethod>,
}

/// The settings as plain values.
pub struct AppConfigView {
    pub hotkey: Seq<char>,
    pub autostart: bool,
    pub tts_voice: Option<Seq<char>>,
    pub uia_enabled: bool,
    pub clipboard_enabled: bool,
    pub capture_methods: Seq<CaptureMethod>,
}

impl View for AppConfig {
    type V = AppConfigView;

    open spec fn view(&self) -> AppConfigView {
        AppConfigView {
            hotkey: self.hotkey@,
            autostart: self.autostart,
            tts_voice: match self.tts_voice {
                Some(v) => Some(v@),
                None => None,
            },
            uia_enabled: self.uia_enabled,
            clipboard_enabled: self.clipboard_enabled,
            capture_methods: self.capture_methods@,
        }
    }
}

/// The hotkey that a fresh configuration registers.
pub open spec fn default_hotkey() -> Seq<char> {
    seq!['C', 'o', 'm', 'm', 'a', 'n', 'd', 'O', 'r', 'C', 'o', 'n', 't', 'r', 'o', 'l', '+', 'A', 'l', 't', '+', 'T']
}

/// The settings of a fresh install.
pub open spec fn default_config() -> AppConfigView {
    AppConfigView {
        hotkey: default_hotkey(),
        autostart: false,
        tts_voice: None,
        uia_enabled: true,
        clipboard_enabled: true,
        capture_methods: seq![CaptureMethod::Uia, CaptureMethod::Clipboard],
    }
}

/// The value a missing `*_enabled` flag takes.
pub fn default_true() -> (b: bool)
    ensures
        b,
{
    true
}

/// The capture order a missing `capture_methods` list takes: UI
/// Automation first, then the clipboard.
pub fn default_capture_methods() -> (v: Vec<CaptureMethod>)
    ensures
        v@ == seq![CaptureMethod::Uia, CaptureMethod::Clipboard],
{
    let mut v: Vec<CaptureMethod> = Vec::new();
    v.push(CaptureMethod::Uia);
    v.push(CaptureMethod::Clipboard);
    v
}

impl Default for AppConfig {
    fn default() -> (cfg: Self)
        ensures
            cfg@ == default_config(),
    {
        let hotkey = String::from_str("CommandOrControl+Alt+T");
        proof {
            reveal_strlit("CommandOrControl+Alt+T");
            assert(hotkey@ =~= default_hotkey());
        }
        AppConfig {
            hotkey,
            autostart: false,
            tts_voice: None,
            uia_enabled: default_true(),
            clipboard_enabled: default_true(),
            capture_methods: default_capture_methods(),
        }
    }
}

/// Whether `cfg` lets `method` run.
pub open spec fn method_enabled(cfg: AppConfigView, method: CaptureMethod) -> bool {
    match method {
        CaptureMethod::Uia => cfg.uia_enabled,
        CaptureMethod::Clipboard => cfg.clipboard_enabled,
    }
}

/// The methods that run, in order: `capture_methods` without those whose
/// flag is off.
pub open spec fn capture_plan_of(cfg: AppConfigView) -> Seq<CaptureMethod> {
    cfg.capture_methods.filter(|m: CaptureMethod| method_enabled(cfg, m))
}

impl AppConfig {
    /// A copy of the settings.
    pub fn duplicate(&self) -> (c: AppConfig)
        ensures
            c@ == self@,
    {
        let tts_voice = match &self.tts_voice {
            Some(v) => Some(v.clone()),
            None => None,
        };
        let mut methods: Vec<CaptureMethod> = Vec::new();
        let n = self.capture_methods.len();
        for i in 0..n
            invariant
                n == self.capture_methods.len(),
                methods@ == self.capture_methods@.take(i as int),
        {
            methods.push(self.capture_methods[i]);
            assert(self.capture_methods@.take(i + 1) =~= self.capture_methods@.take(i as int).push(self.capture_methods@[i as int]));
        }
        assert(self.capture_methods@.take(n as int) =~= self.capture_methods@);
        AppConfig {
            hotkey: self.hotkey.clone(),
            autostart: self.autostart,
            tts_voice,
            uia_enabled: self.uia_enabled,
            clipboard_enabled: self.clipboard_enabled,
            capture_methods: methods,
        }
    }

    /// Whether the configuration lets `method` run.
    pub fn enables(&self, method: CaptureMethod) -> (b: bool)
        ensures
            b == method_enabled(self@, method),
    {
        match method {
            CaptureMethod::Uia => self.uia_enabled,
            CaptureMethod::Clipboard => self.clipboard_enabled,
        }
    }

    /// The capture methods to try, in order (see `capture_plan_of`).
    pub fn capture_plan(&self) -> (plan: Vec<CaptureMethod>)
        ensures
            plan@ == capture_plan_of(self@),
    {
        let mut plan: Vec<CaptureMethod> = Vec::new();
        let n = self.capture_methods.len();
        let ghost f = |m: CaptureMethod| method_enabled(self@, m);
        for i in 0..n
            invariant
                n == self.capture_methods.len(),
                f == (|m: CaptureMethod| method_enabled(self@, m)),
                plan@ == self.capture_methods@.take(i as int).filter(f),
        {
            let m = self.capture_methods[i];
            proof {
                reveal_with_fuel(Seq::<_>::filter, 1);
                assert(self.capture_methods@.take(i + 1).drop_last() =~= self.capture_methods@.take(i as int));
            }
            if self.enables(m) {
                plan.push(m);
            }
        }
        assert(self.capture_methods@.take(n as int) =~= self.capture_methods@);
        plan
    }

    /// Whether `other` registers a different hotkey.
    pub fn hotkey_differs(&self, other: &AppConfig) -> (b: bool)
        ensures
            b == (self.hotkey@ != other.hotkey@),
    {
        !(self.hotkey == other.hotkey)
    }
}

/// The plan holds only enabled methods, and every enabled method that
/// `capture_methods` lists is in it.
pub proof fn lemma_plan_runs_exactly_enabled_methods(cfg: AppConfigView)
    ensures
        forall|i: int| 0 <= i < capture_plan_of(cfg).len() ==> method_enabled(cfg, #[trigger] capture_plan_of(cfg)[i]),
        forall|i: int| 0 <= i < cfg.capture_methods.len() && method_enabled(cfg, #[trigger] cfg.capture_methods[i])
            ==> capture_plan_of(cfg).contains(cfg.capture_methods[i]),
{
    let f = |m: CaptureMethod| method_enabled(cfg, m);
    assert forall|i: int| 0 <= i < capture_plan_of(cfg).len() implies method_enabled(cfg, #[trigger] capture_plan_of(cfg)[i]) by {
        cfg.capture_methods.lemma_filter_pred(f, i);
    }
    assert forall|i: int| 0 <= i < cfg.capture_methods.len() && method_enabled(cfg, #[trigger] cfg.capture_methods[i])
        implies capture_plan_of(cfg).contains(cfg.capture_methods[i]) by {
        cfg.capture_methods.lemma_filter_contains(f, i);
    }
}

proof fn lemma_filter_all(s: Seq<CaptureMethod>, f: spec_fn(CaptureMethod) -> bool)
    requires
        forall|i: int| 0 <= i < s.len() ==> f(#[trigger] s[i]),
    ensures
        s.filter(f) == s,
    decreases s.len(),
{
    reveal_with_fuel(Seq::<_>::filter, 1);
    if s.len() > 0 {
        lemma_filter_all(s.drop_last(), f);
        assert(f(s[s.len() - 1]));
        assert(s.drop_last().push(s.last()) =~= s);
    }
}

/// With both methods enabled the plan is the configured order itself.
pub proof fn lemma_plan_all_enabled(cfg: AppConfigView)
    requires
        cfg.uia_enabled,
        cfg.clipboard_enabled,
    ensures
        capture_plan_of(cfg) == cfg.capture_methods,
{
    let f = |m: CaptureMethod| method_enabled(cfg, m);
    lemma_filter_all(cfg.capture_methods, f);
}

} // verus!
