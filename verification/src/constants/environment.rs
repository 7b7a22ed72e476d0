//! The names of the environment variables that configure the service.

use vstd::prelude::*;

verus! {

pub const SERVICE_PORT: &'static str = "SERVICE_PORT";

pub const POSTGRES_DSN: &'static str = "DATABASE_URL";

pub const MONGO_DSN: &'static str = "MONGO_DSN";

pub const MONGO_DB: &'static str = "MONGO_DB";

pub const SMTP_TRANSPORT: &'static str = "SMTP_TRANSPORT";

pub const SMTP_ORIGIN: &'static str = "SMTP_ORIGIN";

pub const SMTP_USERNAME: &'static str = "SMTP_USERNAME";

pub const SMTP_PASSWORD: &'static str = "SMTP_PASSWORD";

pub const JWT_PUBLIC: &'static str = "JWT_PUBLIC";

pub const JWT_SECRET: &'static str = "JWT_SECRET";

pub const TEMPLATES: &'static str = "TEMPLATES";

pub const PWD_SUFIX: &'static str = "PWD_SUFIX";

pub const APP_NAME: &'static str = "APP_NAME";

} // verus!
