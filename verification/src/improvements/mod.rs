pub mod city;
pub mod resource;
