//! RBUM services: the decisions and the data shaping of the services, apart from the storage
pub mod rbum_cert_serv;
pub mod rbum_rel_serv;
pub mod rbum_set_serv;
