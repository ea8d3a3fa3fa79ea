//! Request and response objects of RBUM.
pub mod rbum_cert_conf_dto;
pub mod rbum_cert_dto;
pub mod rbum_filer_dto;
pub mod rbum_item_attr_dto;
pub mod rbum_rel_agg_dto;
pub mod rbum_rel_attr_dto;
pub mod rbum_rel_dto;
pub mod rbum_rel_env_dto;
pub mod rbum_set_dto;
pub mod rbum_set_item_dto;
