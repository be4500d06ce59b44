use vstd::prelude::*;

verus! {

#[verifier::external_type_specification]
#[verifier::external_body]
pub struct ExDbErr(sea_orm::DbErr);

/// An error of the application.
#[derive(Clone, Debug)]
pub enum AppErr {
    /// An unexpected failure, with its description.
    Bug(String),
}

impl From<sea_orm::DbErr> for AppErr {
    fn from(err: sea_orm::DbErr) -> (r: AppErr)
        ensures
            r matches AppErr::Bug(text) && vstd::string::to_string_from_display_ensures::<
                sea_orm::DbErr,
            >(&err, text),
    {
        AppErr::Bug(err.to_string())
    }
}

impl vstd::std_specs::convert::FromSpecImpl<sea_orm::DbErr> for AppErr {
    open spec fn obeys_from_spec() -> bool {
        false
    }

    /// Not claimed: the conversion's text comes from the database error's `Display`.
    open spec fn from_spec(err: sea_orm::DbErr) -> AppErr {
        vstd::pervasive::arbitrary()
    }
}

} // verus!
