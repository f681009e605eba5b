//! Category creation rules.
//!
//! Category names are unique up to ASCII case across the whole store,
//! and the kind string must denote one of the closed kinds.

use vstd::prelude::*;
use crate::casing::{eq_ignore_case, str_eq_ignore_case};
use crate::clock::now_timestamp;
use crate::errors::DomainError;
use crate::models::{parse_kind_spec, CategoryStatus, CategoryView, Kind, NewCategory};
use crate::repository::Repository;

verus! {

/// Whether some category already carries a case-insensitively equal
/// name.
pub open spec fn category_name_taken(categories: Seq<CategoryView>, name: Seq<char>) -> bool {
    exists|j: int| 0 <= j < categories.len() && eq_ignore_case(categories[j].name, name)
}

/// Whether a category with a case-insensitively equal name exists.
pub fn category_name_exists(repo: &Repository, name_to_check: &str) -> (r: bool)
    ensures
        r == category_name_taken(repo@.categories, name_to_check@),
{
    let categories = repo.categories_ref();
    let n = categories.len();
    let mut k: usize = 0;
    while k < n
        invariant
            n == categories.len(),
            k <= n,
            categories.deep_view() == repo@.categories,
            forall|j: int|
                0 <= j < k ==> !eq_ignore_case(repo@.categories[j].name, name_to_check@),
        decreases n - k,
    {
        if str_eq_ignore_case(categories[k].name.as_str(), name_to_check) {
            proof {
                assert(eq_ignore_case(repo@.categories[k as int].name, name_to_check@));
            }
            return true;
        }
        k = k + 1;
    }
    false
}

/// Validates and assembles a category ready for insertion: refused when
/// a case-insensitively equal name is already stored, or when the kind
/// string denotes no kind. The creation timestamp is read from the wall
/// clock.
pub fn prepare_new_category(
    repo: &Repository,
    name: &str,
    category_type: &str,
    status: CategoryStatus,
) -> (r: Result<NewCategory, DomainError>)
    ensures
        r is Ok <==> (!category_name_taken(repo@.categories, name@) && parse_kind_spec(
            category_type@,
        ) is Some),
        r matches Ok(c) ==> {
            &&& c@.name == name@
            &&& c@.description is None
            &&& Some(c@.kind) == parse_kind_spec(category_type@)
            &&& c@.status == status
            &&& c@.updated_at is None
        },
        r matches Err(e) ==> if category_name_taken(repo@.categories, name@) {
            e == DomainError::DuplicateCategoryName
        } else {
            parse_kind_spec(category_type@) is None && e == DomainError::InvalidCategoryKind
        },
{
    if category_name_exists(repo, name) {
        return Err(DomainError::DuplicateCategoryName);
    }
    let kind = match Kind::parse(category_type) {
        Some(k) => k,
        None => {
            return Err(DomainError::InvalidCategoryKind);
        },
    };
    Ok(
        NewCategory {
            name: name.to_owned(),
            description: None,
            kind,
            status,
            created_at: now_timestamp(),
            updated_at: None,
        },
    )
}

} // verus!
