pub mod building;
pub mod city;
