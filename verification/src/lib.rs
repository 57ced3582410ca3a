//! Policy, ownership, product-shape, return-binding and struct-pattern logic
//! of the language build layer.
pub mod model;
pub mod norm_syntax;
pub mod source;
pub mod policy_syntax;
pub mod policy_pair;
pub mod policy_export;
pub mod policy_migration;
pub mod policy_overload;
pub mod policy_transition;
pub mod semantic_owner;
pub mod semantic_world;
pub mod struct_pattern_material;
pub mod struct_pattern_registry;
pub mod struct_decoder;
pub mod product_shape;
pub mod return_target;
pub mod type_argument;
pub mod v08;
