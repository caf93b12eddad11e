use vstd::prelude::*;

verus! {

/// What initialization does: either report that the configuration files do
/// not exist yet, or run the materialized theme script.
pub enum InitAction {
    ReportMissing,
    RunScript { path: String },
}

/// The mathematical shape of an `InitAction`.
pub enum InitActionModel {
    ReportMissing,
    RunScript { path: Seq<char> },
}

impl View for InitAction {
    type V = InitActionModel;

    open spec fn view(&self) -> InitActionModel {
        match self {
            InitAction::ReportMissing => InitActionModel::ReportMissing,
            InitAction::RunScript { path } => InitActionModel::RunScript { path: path@ },
        }
    }
}

/// The theme name initialization starts from: the configured default, or
/// the stored current name when no default is given.
pub open spec fn init_theme_name(default_name: Seq<char>, stored_name: Seq<char>) -> Seq<char> {
    if default_name.len() == 0 {
        stored_name
    } else {
        default_name
    }
}

/// Decides what initialization does.  When the materialized theme script is
/// absent, or no theme name is known at all, there is nothing to apply and
/// the driver reports that the configuration files do not exist yet;
/// otherwise the script at `colorscheme_path` is run.
pub fn init_command(
    default_name: &str,
    stored_name: &str,
    colorscheme_path: &str,
    colorscheme_exists: bool,
) -> (r: InitAction)
    ensures
        ({
            let name = init_theme_name(default_name@, stored_name@);
            if !colorscheme_exists || name.len() == 0 {
                r@ == InitActionModel::ReportMissing
            } else {
                r@ == (InitActionModel::RunScript { path: colorscheme_path@ })
            }
        }),
{
    let name_len: usize = if default_name.unicode_len() > 0 {
        default_name.unicode_len()
    } else {
        stored_name.unicode_len()
    };
    if !colorscheme_exists || name_len == 0 {
        InitAction::ReportMissing
    } else {
        InitAction::RunScript { path: colorscheme_path.to_owned() }
    }
}

} // verus!
