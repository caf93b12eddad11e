use vstd::prelude::*;

verus! {

/// One step the bootstrap collaborator must perform before the core runs.
pub enum SetupAction {
    CreateDir { path: String },
    CreateFile { path: String },
}

/// The mathematical shape of a `SetupAction`.
pub enum SetupActionModel {
    CreateDir { path: Seq<char> },
    CreateFile { path: Seq<char> },
}

impl View for SetupAction {
    type V = SetupActionModel;

    open spec fn view(&self) -> SetupActionModel {
        match self {
            SetupAction::CreateDir { path } => SetupActionModel::CreateDir { path: path@ },
            SetupAction::CreateFile { path } => SetupActionModel::CreateFile { path: path@ },
        }
    }
}

/// What must be created, in order: the configuration directory, the data
/// directory, then the theme-name file — each only when it is absent.
pub open spec fn bootstrap_plan(
    config_path: Seq<char>,
    config_exists: bool,
    data_path: Seq<char>,
    data_exists: bool,
    theme_name_path: Seq<char>,
    theme_name_file_exists: bool,
) -> Seq<SetupActionModel> {
    (if !config_exists {
        seq![SetupActionModel::CreateDir { path: config_path }]
    } else {
        Seq::empty()
    }) + (if !data_exists {
        seq![SetupActionModel::CreateDir { path: data_path }]
    } else {
        Seq::empty()
    }) + (if !theme_name_file_exists {
        seq![SetupActionModel::CreateFile { path: theme_name_path }]
    } else {
        Seq::empty()
    })
}

/// Decides what the bootstrap step must create so that the configuration
/// directory, the data directory and the theme-name file all exist before
/// the switcher or the state store is used.  Takes what the driver observed
/// of each path and returns the creations to perform, in order; anything
/// already present is left untouched.
pub fn ensure_config_files_exist(
    config_path: String,
    config_exists: bool,
    data_path: String,
    data_exists: bool,
    theme_name_path: String,
    theme_name_file_exists: bool,
) -> (r: Vec<SetupAction>)
    ensures
        r@.map_values(|a: SetupAction| a@) == bootstrap_plan(
            config_path@,
            config_exists,
            data_path@,
            data_exists,
            theme_name_path@,
            theme_name_file_exists,
        ),
{
    let ghost plan = bootstrap_plan(
        config_path@,
        config_exists,
        data_path@,
        data_exists,
        theme_name_path@,
        theme_name_file_exists,
    );
    let mut r: Vec<SetupAction> = Vec::new();
    if !config_exists {
        r.push(SetupAction::CreateDir { path: config_path });
    }
    if !data_exists {
        r.push(SetupAction::CreateDir { path: data_path });
    }
    if !theme_name_file_exists {
        r.push(SetupAction::CreateFile { path: theme_name_path });
    }
    proof {
        assert(r@.map_values(|a: SetupAction| a@) =~= plan);
    }
    r
}

} // verus!
