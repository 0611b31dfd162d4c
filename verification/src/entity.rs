pub mod normal_distribute;
