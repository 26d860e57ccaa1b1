//! The tree-sitter types that the parse and query wrappers hand on.

use vstd::prelude::*;
use tree_sitter::Language as Grammar;
use tree_sitter::Query as TsQuery;
use tree_sitter::Tree as TsTree;

verus! {

#[verifier::external_type_specification]
#[verifier::external_body]
pub struct ExGrammar(Grammar);

#[verifier::external_type_specification]
#[verifier::external_body]
pub struct ExTsQuery(TsQuery);

#[verifier::external_type_specification]
#[verifier::external_body]
pub struct ExTsTree(TsTree);

} // verus!
