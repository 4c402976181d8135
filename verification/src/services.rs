pub mod http_utils;
