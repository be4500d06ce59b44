pub mod cqrs;
