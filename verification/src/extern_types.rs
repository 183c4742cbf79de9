//! Declarations of the external triangulator's types that appear in the
//! engine's signatures and fields.  The engine carries values of these types
//! through; it never inspects them.

use vstd::prelude::*;

verus! {

#[verifier::external_type_specification]
#[verifier::external_body]
pub struct ExPath(lyon_tessellation::path::Path);

#[verifier::external_type_specification]
#[verifier::external_body]
pub struct ExFillTessellator(lyon_tessellation::FillTessellator);

#[verifier::external_type_specification]
#[verifier::external_body]
pub struct ExStrokeTessellator(lyon_tessellation::StrokeTessellator);

#[verifier::external_type_specification]
#[verifier::external_body]
pub struct ExLineCap(lyon_tessellation::LineCap);

#[verifier::external_type_specification]
#[verifier::external_body]
pub struct ExLineJoin(lyon_tessellation::LineJoin);

} // verus!
