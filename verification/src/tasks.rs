//! The background tasks that replace the impulse response or its processing
//! settings, and the bookkeeping they do.
use vstd::prelude::*;

use crate::ipc::{IrData, IrDataView};
use crate::processing::IrProcessingConfig;

verus! {

/// Work that the editor hands to the background thread.
#[derive(Debug)]
pub enum Task {
    /// New processing settings for the impulse response.
    UpdateIrConfig(IrProcessingConfig),
    /// A new impulse response.
    UpdateIr(IrData),
}

/// The content of a [`Task`].
pub enum TaskView {
    UpdateIrConfig(IrProcessingConfig),
    UpdateIr(IrDataView),
}

impl View for Task {
    type V = TaskView;

    open spec fn view(&self) -> TaskView {
        match self {
            Task::UpdateIrConfig(c) => TaskView::UpdateIrConfig(*c),
            Task::UpdateIr(d) => TaskView::UpdateIr(d@),
        }
    }
}

/// What the plug-in keeps about its impulse response, besides the decoded
/// samples themselves: the processing settings, whether samples are loaded,
/// and the impulse response as it was handed over (which is what gets saved
/// with a session).
#[derive(Debug)]
pub struct IrSettings {
    pub config: IrProcessingConfig,
    pub ir_loaded: bool,
    pub ir_data: Option<IrData>,
}

/// The content of an [`IrSettings`].
pub struct IrSettingsView {
    pub config: IrProcessingConfig,
    pub ir_loaded: bool,
    pub ir_data: Option<IrDataView>,
}

impl View for IrSettings {
    type V = IrSettingsView;

    open spec fn view(&self) -> IrSettingsView {
        IrSettingsView {
            config: self.config,
            ir_loaded: self.ir_loaded,
            ir_data: match self.ir_data {
                Some(d) => Some(d@),
                None => None,
            },
        }
    }
}

/// What has to happen to the convolvers after a task.
#[derive(Debug)]
pub enum ConvolverUpdate {
    /// Decode the WAV bytes of `ir_data`, keep the decoded samples, process
    /// them with `config` and swap the resulting convolvers in; once that has
    /// succeeded, record it with [`IrSettings::record_loaded_ir`].
    Load { ir_data: IrData, config: IrProcessingConfig },
    /// Process the samples already held with `config` and swap the resulting
    /// convolvers in.
    Reprocess { config: IrProcessingConfig },
    /// Leave the convolvers as they are.
    Keep,
}

/// The content of a [`ConvolverUpdate`].
pub enum ConvolverUpdateView {
    Load { ir_data: IrDataView, config: IrProcessingConfig },
    Reprocess { config: IrProcessingConfig },
    Keep,
}

impl View for ConvolverUpdate {
    type V = ConvolverUpdateView;

    open spec fn view(&self) -> ConvolverUpdateView {
        match self {
            ConvolverUpdate::Load { ir_data, config } => ConvolverUpdateView::Load {
                ir_data: ir_data@,
                config: *config,
            },
            ConvolverUpdate::Reprocess { config } => ConvolverUpdateView::Reprocess { config: *config },
            ConvolverUpdate::Keep => ConvolverUpdateView::Keep,
        }
    }
}

/// The settings before any impulse response is loaded.
pub open spec fn initial_settings() -> IrSettingsView {
    IrSettingsView {
        config: IrProcessingConfig { normalize: false, resample: false },
        ir_loaded: false,
        ir_data: None,
    }
}

/// One task applied to the settings: the settings afterwards and what happens
/// to the convolvers.
/// - New processing settings are kept whether or not an impulse response is
///   loaded; the loaded one, if any, is processed again with them.
/// - A new impulse response is loaded with the current settings; the
///   settings record it only once it has been decoded ([`loaded_step`]).
pub open spec fn task_step(s: IrSettingsView, t: TaskView) -> (IrSettingsView, ConvolverUpdateView) {
    match t {
        TaskView::UpdateIrConfig(c) => (
            IrSettingsView { config: c, ..s },
            if s.ir_loaded {
                ConvolverUpdateView::Reprocess { config: c }
            } else {
                ConvolverUpdateView::Keep
            },
        ),
        TaskView::UpdateIr(d) => (s, ConvolverUpdateView::Load { ir_data: d, config: s.config }),
    }
}

/// The settings once the impulse response `d` has been decoded and its
/// convolvers swapped in: its samples are held, and it is the one to save.
pub open spec fn loaded_step(s: IrSettingsView, d: IrDataView) -> IrSettingsView {
    IrSettingsView { ir_loaded: true, ir_data: Some(d), ..s }
}

/// Restoring saved settings when the plug-in starts: a saved impulse response
/// is loaded again with the saved processing settings. Restoring changes no
/// setting; the impulse response counts as loaded only once its bytes have
/// been decoded ([`loaded_step`]).
pub open spec fn restore_step(s: IrSettingsView) -> ConvolverUpdateView {
    match s.ir_data {
        Some(d) => ConvolverUpdateView::Load { ir_data: d, config: s.config },
        None => ConvolverUpdateView::Keep,
    }
}

fn copy_ir_data(d: &IrData) -> (r: IrData)
    ensures
        r@ == d@,
{
    let raw_bytes = d.raw_bytes.clone();
    proof {
        assert(raw_bytes@ =~= d.raw_bytes@);
    }
    IrData { name: d.name.clone(), raw_bytes }
}

impl IrSettings {
    /// Default processing settings and no impulse response.
    pub fn new() -> (r: Self)
        ensures
            r@ == initial_settings(),
            !r.config.normalize,
            !r.config.resample,
    {
        IrSettings { config: IrProcessingConfig::default(), ir_loaded: false, ir_data: None }
    }

    /// Saved settings: the processing settings and the impulse response last
    /// handed over, whose samples are not loaded yet.
    pub fn from_saved(config: IrProcessingConfig, ir_data: Option<IrData>) -> (r: Self)
        ensures
            r.config == config,
            !r.ir_loaded,
            r.ir_data == ir_data,
    {
        IrSettings { config, ir_loaded: false, ir_data }
    }

    /// Applies `task` and says what has to happen to the convolvers.
    pub fn apply(&mut self, task: Task) -> (r: ConvolverUpdate)
        ensures
            (final(self)@, r@) == task_step(old(self)@, task@),
    {
        match task {
            Task::UpdateIrConfig(config) => {
                self.config = config;
                if self.ir_loaded {
                    ConvolverUpdate::Reprocess { config }
                } else {
                    ConvolverUpdate::Keep
                }
            },
            Task::UpdateIr(ir_data) => ConvolverUpdate::Load { ir_data, config: self.config },
        }
    }

    /// Records that the impulse response `ir_data` has been decoded and its
    /// convolvers swapped in.
    pub fn record_loaded_ir(&mut self, ir_data: IrData)
        ensures
            final(self)@ == loaded_step(old(self)@, ir_data@),
    {
        self.ir_loaded = true;
        self.ir_data = Some(ir_data);
    }

    /// What loads the saved impulse response, if there is one, when the
    /// plug-in starts.
    pub fn restore(&self) -> (r: ConvolverUpdate)
        ensures
            r@ == restore_step(self@),
    {
        match &self.ir_data {
            Some(d) => ConvolverUpdate::Load { ir_data: copy_ir_data(d), config: self.config },
            None => ConvolverUpdate::Keep,
        }
    }
}

/// New processing settings are kept whether or not an impulse response is
/// loaded.
pub proof fn lemma_config_update_persists(s: IrSettingsView, c: IrProcessingConfig)
    ensures
        task_step(s, TaskView::UpdateIrConfig(c)).0.config == c,
        task_step(s, TaskView::UpdateIrConfig(c)).0.ir_data == s.ir_data,
        task_step(s, TaskView::UpdateIrConfig(c)).0.ir_loaded == s.ir_loaded,
{
}

/// Before any impulse response is loaded, new processing settings leave the
/// convolvers alone.
pub proof fn lemma_config_without_ir_keeps_convolvers(c: IrProcessingConfig)
    ensures
        task_step(initial_settings(), TaskView::UpdateIrConfig(c)).1 == ConvolverUpdateView::Keep,
{
}

/// A fresh plug-in processes its first impulse response with the default
/// processing settings (no normalization, no resampling), whatever the
/// impulse response, and until then it holds no impulse response.
pub proof fn lemma_first_ir_uses_default_processing(d: IrDataView)
    ensures
        !initial_settings().ir_loaded,
        initial_settings().ir_data is None,
        task_step(initial_settings(), TaskView::UpdateIr(d)).1 == (ConvolverUpdateView::Load {
            ir_data: d,
            config: IrProcessingConfig { normalize: false, resample: false },
        }),
{
}

/// A new impulse response that has not been decoded yet (or failed to
/// decode) leaves the settings as they were: with nothing loaded before, new
/// processing settings then still leave the convolvers alone.
pub proof fn lemma_undecoded_ir_changes_nothing(s: IrSettingsView, d: IrDataView, c: IrProcessingConfig)
    ensures
        task_step(s, TaskView::UpdateIr(d)).0 == s,
        !s.ir_loaded ==> task_step(task_step(s, TaskView::UpdateIr(d)).0, TaskView::UpdateIrConfig(c)).1
            == ConvolverUpdateView::Keep,
{
}

/// Until a restored impulse response has been decoded, new processing
/// settings leave the convolvers alone: there are no samples to process.
pub proof fn lemma_restored_ir_not_reprocessed_before_decoding(
    s: IrSettingsView,
    c: IrProcessingConfig,
)
    requires
        !s.ir_loaded,
    ensures
        task_step(s, TaskView::UpdateIrConfig(c)).1 == ConvolverUpdateView::Keep,
        task_step(s, TaskView::UpdateIrConfig(c)).0.ir_data == s.ir_data,
{
}

/// Once an impulse response has been loaded, any later processing settings are
/// applied to it, however many settings changes came in between.
pub proof fn lemma_config_after_ir_reprocesses(
    s: IrSettingsView,
    d: IrDataView,
    c1: IrProcessingConfig,
    c2: IrProcessingConfig,
)
    ensures
        ({
            let s1 = loaded_step(task_step(s, TaskView::UpdateIr(d)).0, d);
            let s2 = task_step(s1, TaskView::UpdateIrConfig(c1)).0;
            &&& task_step(s1, TaskView::UpdateIrConfig(c1)).1 == ConvolverUpdateView::Reprocess {
                config: c1,
            }
            &&& task_step(s2, TaskView::UpdateIrConfig(c2)).1 == ConvolverUpdateView::Reprocess {
                config: c2,
            }
        }),
{
}

/// A new impulse response is loaded with the settings in force; once decoded
/// it is recorded as the one to save, and the settings stay unchanged.
pub proof fn lemma_ir_update_records_and_loads(s: IrSettingsView, d: IrDataView)
    ensures
        task_step(s, TaskView::UpdateIr(d)).1 == (ConvolverUpdateView::Load { ir_data: d, config: s.config }),
        loaded_step(task_step(s, TaskView::UpdateIr(d)).0, d).ir_data == Some(d),
        loaded_step(task_step(s, TaskView::UpdateIr(d)).0, d).config == s.config,
{
}

/// Restoring the settings that a task sequence left behind loads the last
/// impulse response loaded, with the last processing settings.
pub proof fn lemma_restore_reloads_last_ir(
    s: IrSettingsView,
    d: IrDataView,
    c: IrProcessingConfig,
)
    ensures
        ({
            let s1 = loaded_step(task_step(s, TaskView::UpdateIr(d)).0, d);
            let s2 = task_step(s1, TaskView::UpdateIrConfig(c)).0;
            let saved = IrSettingsView { ir_loaded: false, ..s2 };
            restore_step(saved) == ConvolverUpdateView::Load { ir_data: d, config: c }
        }),
{
}

} // verus!
