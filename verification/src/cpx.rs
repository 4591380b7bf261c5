//! The top of the library: options plus configuration, and the step from
//! a selection request to a concrete copy plan.

use vstd::prelude::*;

use crate::config::{alist_lookup, resolve_result, ConfigInfo, ConfigView};
use crate::errors::{CpxError, CpxErrorView};
use crate::plan::{join_path, joined_path, CopyOp, CopyPlan, OpView, PlanView};

verus! {

/// The options governing one invocation: the source and destination
/// location names and the execution flags.
pub struct CopyConfig {
    pub from: Option<String>,
    pub to: Option<String>,
    pub dry_run: bool,
    /// Accepted as configuration data but not acted upon: no parent
    /// directory is created before a copy.
    pub create_dir: bool,
    pub verbose: u64,
}

/// The mathematical value of a [`CopyConfig`].
pub struct CopyConfigView {
    pub from: Option<Seq<char>>,
    pub to: Option<Seq<char>>,
    pub dry_run: bool,
    pub create_dir: bool,
    pub verbose: u64,
}

impl View for CopyConfig {
    type V = CopyConfigView;

    open spec fn view(&self) -> CopyConfigView {
        CopyConfigView {
            from: self.from.deep_view(),
            to: self.to.deep_view(),
            dry_run: self.dry_run,
            create_dir: self.create_dir,
            verbose: self.verbose,
        }
    }
}

/// One invocation's worth of state: what to do, and the configuration
/// that says what the names in it mean.
pub struct Cpx {
    pub copy_config: CopyConfig,
    pub file_config: ConfigInfo,
}

/// The mathematical value of a [`Cpx`].
pub struct CpxView {
    pub copy_config: CopyConfigView,
    pub file_config: ConfigView,
}

impl View for Cpx {
    type V = CpxView;

    open spec fn view(&self) -> CpxView {
        CpxView { copy_config: self.copy_config@, file_config: self.file_config@ }
    }
}

/// The source base path the options name, if the options carry a source
/// name and the configuration knows it.
pub open spec fn src_path_spec(c: CpxView) -> Option<Seq<char>> {
    match c.copy_config.from {
        Some(name) => alist_lookup(c.file_config.path_list, name),
        None => None,
    }
}

/// The destination base path the options name, likewise.
pub open spec fn dst_path_spec(c: CpxView) -> Option<Seq<char>> {
    match c.copy_config.to {
        Some(name) => alist_lookup(c.file_config.path_list, name),
        None => None,
    }
}

/// What executing a selection yields: the resolved relative paths turned
/// into operations under the source and destination base paths, under the
/// invocation's flags — or the first fatal failure, a file-name lookup
/// before a source or destination that does not resolve.
pub open spec fn plan_result(
    c: CpxView,
    tags: Option<Seq<Seq<char>>>,
    files: Option<Seq<Seq<char>>>,
) -> Result<PlanView, CpxErrorView> {
    match resolve_result(c.file_config, tags, files) {
        Err(e) => Err(e),
        Ok(paths) => match (src_path_spec(c), dst_path_spec(c)) {
            (Some(from), Some(to)) => Ok(
                PlanView {
                    ops: paths.map_values(
                        |p: Seq<char>|
                            OpView { src: joined_path(from, p), dst: joined_path(to, p) },
                    ),
                    dry_run: c.copy_config.dry_run,
                    verbose: c.copy_config.verbose,
                },
            ),
            _ => Err(CpxErrorView::PathResolutionFailure),
        },
    }
}

/// A dry execution is idempotent: the plan it yields is a function of the
/// instance and the selection alone — so repeated runs plan and report
/// identically — and that plan performs no filesystem copy at all, while
/// still reporting every operation it would have performed.
pub proof fn lemma_execute_dry_run_idempotent(
    c: CpxView,
    tags: Option<Seq<Seq<char>>>,
    files: Option<Seq<Seq<char>>>,
)
    requires
        c.copy_config.dry_run,
    ensures
        plan_result(c, tags, files) is Ok ==> ({
            let p = plan_result(c, tags, files)->Ok_0;
            p.dry_run && crate::plan::writes_of(p) == Seq::<OpView>::empty()
                && crate::plan::report_of(p) == p.ops.map_values(
                |op: OpView| crate::plan::report_line_of(op),
            )
        }),
{
    if plan_result(c, tags, files) is Ok {
        crate::plan::lemma_dry_run_idempotent(plan_result(c, tags, files)->Ok_0);
    }
}

impl Cpx {
    /// Pair options with a configuration.
    pub fn new(copy_config: CopyConfig, file_config: ConfigInfo) -> (r: Self)
        ensures
            r@.copy_config == copy_config@,
            r@.file_config == file_config@,
    {
        Self { copy_config, file_config }
    }

    /// The base path of the source location, if it resolves.
    pub fn src_path(&self) -> (r: Option<String>)
        ensures
            match r {
                Some(p) => src_path_spec(self@) == Some(p@),
                None => src_path_spec(self@) is None,
            },
    {
        match &self.copy_config.from {
            Some(name) => match self.file_config.lookup_location(name) {
                Some(pi) => Some(pi.path.clone()),
                None => None,
            },
            None => None,
        }
    }

    /// The base path of the destination location, if it resolves.
    pub fn dst_path(&self) -> (r: Option<String>)
        ensures
            match r {
                Some(p) => dst_path_spec(self@) == Some(p@),
                None => dst_path_spec(self@) is None,
            },
    {
        match &self.copy_config.to {
            Some(name) => match self.file_config.lookup_location(name) {
                Some(pi) => Some(pi.path.clone()),
                None => None,
            },
            None => None,
        }
    }

    /// Resolve a selection of tags and files and turn it into the plan of
    /// copy operations this invocation calls for. Fails fast — before any
    /// copy — on an unknown file name or an unresolvable source or
    /// destination location.
    pub fn execute(&self, tags: Option<Vec<String>>, files: Option<Vec<String>>) -> (r: Result<
        CopyPlan,
        CpxError,
    >)
        ensures
            ({
                let res = plan_result(self@, tags.deep_view(), files.deep_view());
                match r {
                    Ok(p) => res is Ok && p@ == res->Ok_0,
                    Err(e) => res is Err && e@ == res->Err_0,
                }
            }),
    {
        let ghost tags_v = tags.deep_view();
        let ghost files_v = files.deep_view();
        let entries = match self.file_config.calculate_file_list(tags, files) {
            Ok(v) => v,
            Err(e) => {
                return Err(e);
            },
        };
        let from = match self.src_path() {
            Some(p) => p,
            None => {
                return Err(CpxError::PathResolutionFailure);
            },
        };
        let to = match self.dst_path() {
            Some(p) => p,
            None => {
                return Err(CpxError::PathResolutionFailure);
            },
        };
        let ghost paths = resolve_result(self@.file_config, tags_v, files_v)->Ok_0;
        let ghost mapped = paths.map_values(
            |p: Seq<char>| OpView { src: joined_path(from@, p), dst: joined_path(to@, p) },
        );
        let mut ops: Vec<CopyOp> = Vec::new();
        proof {
            assert(ops.deep_view() =~= mapped.take(0));
        }
        let mut i: usize = 0;
        while i < entries.len()
            invariant
                0 <= i <= entries@.len(),
                entries.deep_view() == paths,
                mapped == paths.map_values(
                    |p: Seq<char>| OpView { src: joined_path(from@, p), dst: joined_path(to@, p) },
                ),
                ops.deep_view() == mapped.take(i as int),
            decreases entries@.len() - i,
        {
            let ghost pre = ops.deep_view();
            let op = CopyOp {
                src: join_path(&from, &entries[i].relative_path),
                dst: join_path(&to, &entries[i].relative_path),
            };
            ops.push(op);
            proof {
                mapped.lemma_take_succ_push(i as int);
                assert(ops.deep_view() =~= pre.push(mapped[i as int]));
            }
            i += 1;
        }
        proof {
            assert(mapped.take(mapped.len() as int) =~= mapped);
        }
        let p = CopyPlan { ops, dry_run: self.copy_config.dry_run, verbose: self.copy_config.verbose };
        proof {
            assert(p@ == plan_result(self@, tags_v, files_v)->Ok_0);
        }
        Ok(p)
    }
}

} // verus!
